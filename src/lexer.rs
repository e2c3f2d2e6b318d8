use vstd::prelude::*;

verus! {

broadcast use vstd::string::group_string_axioms;

/// Relies on `String::push`: the character is appended at the end.
pub assume_specification[ std::string::String::push ](s: &mut std::string::String, ch: char)
    ensures
        final(s)@ == old(s)@.push(ch),
;

/// The kind of a token, with the literal payload where there is one.
#[derive(Clone, Debug, PartialEq, Eq)]
pub enum TokenType {
    String(String),
    Char(char),
    Int(u32),
    /// A decimal literal, held as it was written (digits, one dot, digits).
    Float(String),
    Bool(bool),
    Identifier(String),
    Null,
    LeftParenthesis,
    RightParenthesis,
    LeftBrace,
    RightBrace,
    Comma,
    Dot,
    Semicolon,
    Arrow,
    Plus,
    Minus,
    Asterisk,
    Slash,
    PlusEqual,
    MinusEqual,
    AsteriskEqual,
    SlashEqual,
    Equal,
    DoubleEqual,
    NotEqual,
    Greater,
    GreaterEqual,
    Less,
    LessEqual,
    And,
    Or,
    Not,
    If,
    Then,
    Else,
    For,
    In,
    Do,
    Loop,
    Match,
    Let,
    Const,
    Fn,
    Return,
}

/// A classified lexical unit with its position: `line` and `column` are
/// 0-based and locate the first character, `length` counts every source
/// character the token consumed.
#[derive(Clone, Debug, PartialEq, Eq)]
pub struct Token {
    pub token_type: TokenType,
    pub line: u32,
    pub column: u32,
    pub length: usize,
}

#[derive(Clone, Copy, Debug, PartialEq, Eq, Structural)]
pub enum LexerErrorType {
    /// The character found, and the one that was required there, if any.
    UnexpectedCharacter(char, Option<char>),
    MultipleDecimalPoints,
    UnterminatedString,
    InvalidEscapeSequence,
    UnterminatedCharacter,
    EmptyCharacter,
    /// An integer literal whose value does not fit in 32 bits.
    IntegerTooLarge,
}

/// A lexical error with the place it is reported at.
#[derive(Clone, Copy, Debug, PartialEq, Eq, Structural)]
pub struct LexerError {
    pub error_type: LexerErrorType,
    pub line: u32,
    pub column: u32,
    pub length: usize,
}

/// The abstract state of a lexer: the source, the index of the next
/// character, and the line and column reached.
pub struct LexerState {
    pub source: Seq<char>,
    pub pos: nat,
    pub line: nat,
    pub column: nat,
}

impl LexerState {
    /// A lexer at the start of `source`.
    pub open spec fn start(source: Seq<char>) -> LexerState {
        LexerState { source, pos: 0, line: 0, column: 0 }
    }
}

/// What a token's kind is, with each text payload seen as its characters.
pub enum Kind {
    /// A kind that carries no text: the token type itself.
    Fixed(TokenType),
    /// A string literal, as decoded.
    Text(Seq<char>),
    /// A decimal literal, as written.
    Decimal(Seq<char>),
    /// An identifier.
    Name(Seq<char>),
}

impl TokenType {
    pub open spec fn has_kind(self, k: Kind) -> bool {
        match k {
            Kind::Fixed(t) => self == t,
            Kind::Text(s) => self is String && self->String_0@ == s,
            Kind::Decimal(s) => self is Float && self->Float_0@ == s,
            Kind::Name(s) => self is Identifier && self->Identifier_0@ == s,
        }
    }
}

/// What scanning one construct gives, relative to its first character:
/// a token of `len` characters, or an error reported `offset` columns after
/// the construct's start, `len` columns wide, after `consumed` characters.
#[allow(inconsistent_fields)]
pub enum Scan {
    Token { kind: Kind, len: nat },
    Error { kind: LexerErrorType, offset: nat, len: nat, consumed: nat },
}

/// What one call of the lexer gives.
#[allow(inconsistent_fields)]
pub enum Outcome {
    End,
    Token { kind: Kind, line: nat, column: nat, length: nat },
    Error { kind: LexerErrorType, line: nat, column: nat, length: nat },
}

pub open spec fn result_is(r: Result<Option<Token>, LexerError>, o: Outcome) -> bool {
    match (r, o) {
        (Ok(None), Outcome::End) => true,
        (Ok(Some(t)), Outcome::Token { kind, line, column, length }) => {
            &&& t.token_type.has_kind(kind)
            &&& t.line as nat == line
            &&& t.column as nat == column
            &&& t.length as nat == length
        },
        (Err(e), Outcome::Error { kind, line, column, length }) => {
            &&& e.error_type == kind
            &&& e.line as nat == line
            &&& e.column as nat == column
            &&& e.length as nat == length
        },
        _ => false,
    }
}

pub open spec fn is_digit(c: char) -> bool {
    '0' <= c <= '9'
}

pub open spec fn is_ident_start(c: char) -> bool {
    ('a' <= c <= 'z') || ('A' <= c <= 'Z') || c == '_'
}

pub open spec fn is_ident_char(c: char) -> bool {
    is_ident_start(c) || is_digit(c)
}

/// The end of the run of digits that starts at `i`.
pub open spec fn digits_end(s: Seq<char>, i: int) -> int
    decreases s.len() - i,
{
    if 0 <= i < s.len() && is_digit(s[i]) {
        digits_end(s, i + 1)
    } else {
        i
    }
}

/// The end of the run of identifier characters that starts at `i`.
pub open spec fn ident_end(s: Seq<char>, i: int) -> int
    decreases s.len() - i,
{
    if 0 <= i < s.len() && is_ident_char(s[i]) {
        ident_end(s, i + 1)
    } else {
        i
    }
}

pub open spec fn digit_value(c: char) -> nat {
    (c as int - '0' as int) as nat
}

/// The number that a sequence of decimal digits writes.
pub open spec fn digits_value(d: Seq<char>) -> nat
    decreases d.len(),
{
    if d.len() == 0 {
        0
    } else {
        digits_value(d.drop_last()) * 10 + digit_value(d.last())
    }
}

/// The character that an escape `\c` stands for inside a string literal.
pub open spec fn string_escape(c: char) -> Option<char> {
    if c == 'n' {
        Some('\n')
    } else if c == 't' {
        Some('\t')
    } else if c == 'r' {
        Some('\r')
    } else if c == '\\' {
        Some('\\')
    } else if c == '"' {
        Some('"')
    } else {
        None
    }
}

/// The character that an escape `\c` stands for inside a character literal.
pub open spec fn char_escape(c: char) -> Option<char> {
    if c == 'n' {
        Some('\n')
    } else if c == 't' {
        Some('\t')
    } else if c == 'r' {
        Some('\r')
    } else if c == '\\' {
        Some('\\')
    } else if c == '\'' {
        Some('\'')
    } else {
        None
    }
}

/// The kind of an identifier-shaped word: its keyword, or a name.
pub open spec fn word_kind(w: Seq<char>) -> Kind {
    if w == "true"@ {
        Kind::Fixed(TokenType::Bool(true))
    } else if w == "false"@ {
        Kind::Fixed(TokenType::Bool(false))
    } else if w == "null"@ {
        Kind::Fixed(TokenType::Null)
    } else if w == "and"@ {
        Kind::Fixed(TokenType::And)
    } else if w == "or"@ {
        Kind::Fixed(TokenType::Or)
    } else if w == "not"@ {
        Kind::Fixed(TokenType::Not)
    } else if w == "if"@ {
        Kind::Fixed(TokenType::If)
    } else if w == "then"@ {
        Kind::Fixed(TokenType::Then)
    } else if w == "else"@ {
        Kind::Fixed(TokenType::Else)
    } else if w == "for"@ {
        Kind::Fixed(TokenType::For)
    } else if w == "in"@ {
        Kind::Fixed(TokenType::In)
    } else if w == "do"@ {
        Kind::Fixed(TokenType::Do)
    } else if w == "loop"@ {
        Kind::Fixed(TokenType::Loop)
    } else if w == "match"@ {
        Kind::Fixed(TokenType::Match)
    } else if w == "let"@ {
        Kind::Fixed(TokenType::Let)
    } else if w == "const"@ {
        Kind::Fixed(TokenType::Const)
    } else if w == "fn"@ {
        Kind::Fixed(TokenType::Fn)
    } else if w == "return"@ {
        Kind::Fixed(TokenType::Return)
    } else {
        Kind::Name(w)
    }
}

/// The body of a string literal from index `i` on.
pub enum StrBody {
    /// Closed by a quote: the decoded content, and the index after the quote.
    Closed { content: Seq<char>, end: int },
    /// Cut by the end of the source or by a newline; `end` is the index after
    /// the last character consumed.
    Unclosed { end: int, newline: bool },
    /// An escape whose second character, at `at`, is not recognised.
    BadEscape { at: int },
    /// A backslash as the last character of the source.
    EscapeAtEnd,
}

pub open spec fn with_prefix(v: Seq<char>, b: StrBody) -> StrBody {
    match b {
        StrBody::Closed { content, end } => StrBody::Closed { content: v + content, end },
        _ => b,
    }
}

pub open spec fn string_body(s: Seq<char>, i: int) -> StrBody
    decreases s.len() - i,
{
    if i < 0 || i >= s.len() {
        StrBody::Unclosed { end: s.len() as int, newline: false }
    } else if s[i] == '\n' {
        StrBody::Unclosed { end: i + 1, newline: true }
    } else if s[i] == '"' {
        StrBody::Closed { content: Seq::empty(), end: i + 1 }
    } else if s[i] == '\\' {
        if i + 1 >= s.len() {
            StrBody::EscapeAtEnd
        } else {
            match string_escape(s[i + 1]) {
                Some(d) => with_prefix(seq![d], string_body(s, i + 2)),
                None => StrBody::BadEscape { at: i + 1 },
            }
        }
    } else {
        with_prefix(seq![s[i]], string_body(s, i + 1))
    }
}

/// A string literal whose opening quote is at `p`.
pub open spec fn scan_string(s: Seq<char>, p: int) -> Scan {
    match string_body(s, p + 1) {
        StrBody::Closed { content, end } => Scan::Token {
            kind: Kind::Text(content),
            len: (end - p) as nat,
        },
        StrBody::Unclosed { end, newline } => Scan::Error {
            kind: LexerErrorType::UnterminatedString,
            offset: (if newline { end - p - 1 } else { end - p }) as nat,
            len: 1,
            consumed: (end - p) as nat,
        },
        StrBody::BadEscape { at } => Scan::Error {
            kind: LexerErrorType::InvalidEscapeSequence,
            offset: (at - 1 - p) as nat,
            len: 2,
            consumed: (at + 1 - p) as nat,
        },
        StrBody::EscapeAtEnd => Scan::Error {
            kind: LexerErrorType::UnterminatedString,
            offset: (s.len() - p) as nat,
            len: 1,
            consumed: (s.len() - p) as nat,
        },
    }
}

/// The end of a character literal whose value `v` ends before index `k`.
pub open spec fn char_close(s: Seq<char>, p: int, k: int, v: char) -> Scan {
    if k >= s.len() {
        Scan::Error {
            kind: LexerErrorType::UnterminatedCharacter,
            offset: (k - p) as nat,
            len: 1,
            consumed: (k - p) as nat,
        }
    } else if s[k] == '\'' {
        Scan::Token { kind: Kind::Fixed(TokenType::Char(v)), len: (k + 1 - p) as nat }
    } else {
        Scan::Error {
            kind: LexerErrorType::UnterminatedCharacter,
            offset: (k - p) as nat,
            len: 1,
            consumed: (k + 1 - p) as nat,
        }
    }
}

/// A character literal whose opening quote is at `p`.
pub open spec fn scan_char(s: Seq<char>, p: int) -> Scan {
    let q = p + 1;
    if q >= s.len() {
        Scan::Error { kind: LexerErrorType::UnterminatedCharacter, offset: 1, len: 1, consumed: 1 }
    } else if s[q] == '\\' {
        if q + 1 >= s.len() {
            Scan::Error {
                kind: LexerErrorType::UnterminatedCharacter,
                offset: 1,
                len: 1,
                consumed: 2,
            }
        } else {
            match char_escape(s[q + 1]) {
                Some(v) => char_close(s, p, q + 2, v),
                None => Scan::Error {
                    kind: LexerErrorType::InvalidEscapeSequence,
                    offset: 1,
                    len: 2,
                    consumed: 3,
                },
            }
        }
    } else if s[q] == '\'' {
        Scan::Error { kind: LexerErrorType::EmptyCharacter, offset: 0, len: 2, consumed: 2 }
    } else if s[q] == '\n' {
        Scan::Error { kind: LexerErrorType::UnterminatedCharacter, offset: 1, len: 1, consumed: 2 }
    } else {
        char_close(s, p, q + 1, s[q])
    }
}

/// A number literal whose first digit is at `p`.
pub open spec fn scan_number(s: Seq<char>, p: int) -> Scan {
    let e1 = digits_end(s, p + 1);
    if e1 < s.len() && s[e1] == '.' {
        let e2 = digits_end(s, e1 + 1);
        if e2 < s.len() && s[e2] == '.' {
            Scan::Error {
                kind: LexerErrorType::MultipleDecimalPoints,
                offset: (e2 - p) as nat,
                len: 1,
                consumed: (e2 - p) as nat,
            }
        } else {
            Scan::Token { kind: Kind::Decimal(s.subrange(p, e2)), len: (e2 - p) as nat }
        }
    } else if digits_value(s.subrange(p, e1)) <= u32::MAX {
        Scan::Token {
            kind: Kind::Fixed(TokenType::Int(digits_value(s.subrange(p, e1)) as u32)),
            len: (e1 - p) as nat,
        }
    } else {
        Scan::Error {
            kind: LexerErrorType::IntegerTooLarge,
            offset: 0,
            len: (e1 - p) as nat,
            consumed: (e1 - p) as nat,
        }
    }
}

/// An identifier or keyword whose first character is at `p`.
pub open spec fn scan_word(s: Seq<char>, p: int) -> Scan {
    let e = ident_end(s, p + 1);
    Scan::Token { kind: word_kind(s.subrange(p, e)), len: (e - p) as nat }
}

pub open spec fn next_is(s: Seq<char>, p: int, c: char) -> bool {
    p + 1 < s.len() && s[p + 1] == c
}

/// A token of one character, or of two where the second is `second`.
pub open spec fn one_or_two(s: Seq<char>, p: int, second: char, two: TokenType, one: TokenType) -> Scan {
    if next_is(s, p, second) {
        Scan::Token { kind: Kind::Fixed(two), len: 2 }
    } else {
        Scan::Token { kind: Kind::Fixed(one), len: 1 }
    }
}

pub open spec fn single(t: TokenType) -> Scan {
    Scan::Token { kind: Kind::Fixed(t), len: 1 }
}

/// The construct that starts with the character at `p`.
pub open spec fn scan_at(s: Seq<char>, p: int) -> Scan {
    let c = s[p];
    if c == '(' {
        single(TokenType::LeftParenthesis)
    } else if c == ')' {
        single(TokenType::RightParenthesis)
    } else if c == '{' {
        single(TokenType::LeftBrace)
    } else if c == '}' {
        single(TokenType::RightBrace)
    } else if c == '.' {
        single(TokenType::Dot)
    } else if c == ',' {
        single(TokenType::Comma)
    } else if c == ';' {
        single(TokenType::Semicolon)
    } else if c == '+' {
        one_or_two(s, p, '=', TokenType::PlusEqual, TokenType::Plus)
    } else if c == '-' {
        one_or_two(s, p, '=', TokenType::MinusEqual, TokenType::Minus)
    } else if c == '*' {
        one_or_two(s, p, '=', TokenType::AsteriskEqual, TokenType::Asterisk)
    } else if c == '/' {
        one_or_two(s, p, '=', TokenType::SlashEqual, TokenType::Slash)
    } else if c == '=' {
        if next_is(s, p, '=') {
            Scan::Token { kind: Kind::Fixed(TokenType::DoubleEqual), len: 2 }
        } else if next_is(s, p, '>') {
            Scan::Token { kind: Kind::Fixed(TokenType::Arrow), len: 2 }
        } else {
            single(TokenType::Equal)
        }
    } else if c == '>' {
        one_or_two(s, p, '=', TokenType::GreaterEqual, TokenType::Greater)
    } else if c == '<' {
        one_or_two(s, p, '=', TokenType::LessEqual, TokenType::Less)
    } else if c == '!' {
        if next_is(s, p, '=') {
            Scan::Token { kind: Kind::Fixed(TokenType::NotEqual), len: 2 }
        } else {
            Scan::Error {
                kind: LexerErrorType::UnexpectedCharacter('!', Some('=')),
                offset: 0,
                len: 1,
                consumed: 1,
            }
        }
    } else if is_digit(c) {
        scan_number(s, p)
    } else if c == '"' {
        scan_string(s, p)
    } else if c == '\'' {
        scan_char(s, p)
    } else if is_ident_start(c) {
        scan_word(s, p)
    } else {
        Scan::Error {
            kind: LexerErrorType::UnexpectedCharacter(c, None),
            offset: 0,
            len: 1,
            consumed: 1,
        }
    }
}

/// Where skipping spaces, tabs and newlines from `pos` leads: the index, line
/// and column reached.
pub open spec fn skip_blank(s: Seq<char>, pos: nat, line: nat, column: nat) -> (nat, nat, nat)
    decreases s.len() - pos,
{
    if pos < s.len() && (s[pos as int] == ' ' || s[pos as int] == '\t') {
        skip_blank(s, pos + 1, line, column + 1)
    } else if pos < s.len() && s[pos as int] == '\n' {
        skip_blank(s, pos + 1, line + 1, 0)
    } else {
        (pos, line, column)
    }
}

pub open spec fn consumed(sc: Scan) -> nat {
    match sc {
        Scan::Token { len, .. } => len,
        Scan::Error { consumed, .. } => consumed,
    }
}

/// The outcome of a scan that started at `line` and `column`.
pub open spec fn placed(sc: Scan, line: nat, column: nat) -> Outcome {
    match sc {
        Scan::Token { kind, len } => Outcome::Token { kind, line, column, length: len },
        Scan::Error { kind, offset, len, .. } => Outcome::Error {
            kind,
            line,
            column: column + offset,
            length: len,
        },
    }
}

/// What the next call of the lexer gives from state `st`.
pub open spec fn next_outcome(st: LexerState) -> Outcome {
    let (p, l, c) = skip_blank(st.source, st.pos, st.line, st.column);
    if p >= st.source.len() {
        Outcome::End
    } else {
        placed(scan_at(st.source, p as int), l, c)
    }
}

/// The state the next call of the lexer leaves from state `st`.
pub open spec fn next_state(st: LexerState) -> LexerState {
    let (p, l, c) = skip_blank(st.source, st.pos, st.line, st.column);
    if p >= st.source.len() {
        LexerState { source: st.source, pos: p, line: l, column: c }
    } else {
        let n = consumed(scan_at(st.source, p as int));
        LexerState { source: st.source, pos: p + n, line: l, column: c + n }
    }
}

/// Scans source text into tokens, one token per call.
pub struct Lexer {
    chars: Vec<char>,
    pos: usize,
    line: u32,
    column: u32,
}

impl View for Lexer {
    type V = LexerState;

    closed spec fn view(&self) -> LexerState {
        LexerState {
            source: self.chars@,
            pos: self.pos as nat,
            line: self.line as nat,
            column: self.column as nat,
        }
    }
}

impl Lexer {
    /// The lexer's position is inside its source, and the line and column
    /// reached never exceed the number of characters consumed.
    pub closed spec fn wf(&self) -> bool {
        &&& self.pos <= self.chars.len()
        &&& self.chars.len() < u32::MAX
        &&& self.line + self.column <= self.pos
    }

    /// A lexer at the start of `source`.
    pub fn new(source: &String) -> (r: Self)
        requires
            source@.len() < u32::MAX,
        ensures
            r.wf(),
            r@ == LexerState::start(source@),
    {
        let mut chars: Vec<char> = Vec::new();
        for c in it: source.as_str().chars()
            invariant
                chars@ == it.seq().take(it.index()),
                it.seq() == source@,
        {
            chars.push(c);
        }
        assert(chars@ =~= source@);
        Lexer { chars, pos: 0, line: 0, column: 0 }
    }
}

proof fn lemma_with_prefix_twice(a: Seq<char>, b: Seq<char>, x: StrBody)
    ensures
        with_prefix(a, with_prefix(b, x)) == with_prefix(a + b, x),
{
    match x {
        StrBody::Closed { content, end } => {
            assert(a + (b + content) =~= (a + b) + content);
        },
        _ => {},
    }
}

fn is_digit_char(c: char) -> (r: bool)
    ensures
        r == is_digit(c),
{
    '0' <= c && c <= '9'
}

fn is_ident_start_char(c: char) -> (r: bool)
    ensures
        r == is_ident_start(c),
{
    ('a' <= c && c <= 'z') || ('A' <= c && c <= 'Z') || c == '_'
}

fn is_ident_char_exec(c: char) -> (r: bool)
    ensures
        r == is_ident_char(c),
{
    is_ident_start_char(c) || is_digit_char(c)
}

impl Lexer {
    /// `after` is what scanning the construct `sc`, whose first character was
    /// the last one `self` consumed, leaves; `r` is what it gives.
    spec fn ends_scan(self, after: Self, sc: Scan, r: Result<Option<Token>, LexerError>) -> bool {
        &&& after.wf()
        &&& after.chars@ == self.chars@
        &&& after.line == self.line
        &&& after.pos == self.pos - 1 + consumed(sc)
        &&& after.column == self.column - 1 + consumed(sc)
        &&& result_is(r, placed(sc, self.line as nat, (self.column - 1) as nat))
    }

    fn is_at_end(&self) -> (r: bool)
        ensures
            r == (self.pos >= self.chars.len()),
    {
        self.pos >= self.chars.len()
    }

    fn advance(&mut self) -> (c: char)
        requires
            old(self).wf(),
            old(self).pos < old(self).chars.len(),
        ensures
            final(self).wf(),
            final(self).chars@ == old(self).chars@,
            final(self).pos == old(self).pos + 1,
            final(self).line == old(self).line,
            final(self).column == old(self).column + 1,
            c == old(self).chars@[old(self).pos as int],
    {
        let c = self.chars[self.pos];
        self.pos = self.pos + 1;
        self.column = self.column + 1;
        c
    }

    /// Consumes the next character if it is `expected`.
    fn match_char(&mut self, expected: char) -> (r: bool)
        requires
            old(self).wf(),
        ensures
            r == next_is(old(self).chars@, old(self).pos - 1, expected),
            r ==> final(self).pos == old(self).pos + 1 && final(self).column == old(self).column
                + 1,
            !r ==> final(self).pos == old(self).pos && final(self).column == old(self).column,
            final(self).wf(),
            final(self).chars@ == old(self).chars@,
            final(self).line == old(self).line,
    {
        if self.is_at_end() {
            return false;
        }
        if self.chars[self.pos] != expected {
            return false;
        }
        self.advance();
        true
    }

    fn skip_whitespace(&mut self)
        requires
            old(self).wf(),
        ensures
            final(self).wf(),
            final(self).chars@ == old(self).chars@,
            (final(self).pos as nat, final(self).line as nat, final(self).column as nat)
                == skip_blank(old(self)@.source, old(self)@.pos, old(self)@.line, old(self)@.column),
    {
        while self.pos < self.chars.len()
            invariant
                self.wf(),
                self.chars@ == old(self).chars@,
                skip_blank(self@.source, self@.pos, self@.line, self@.column) == skip_blank(
                    old(self)@.source,
                    old(self)@.pos,
                    old(self)@.line,
                    old(self)@.column,
                ),
            decreases self.chars.len() - self.pos,
        {
            let c = self.chars[self.pos];
            if c == ' ' || c == '\t' {
                self.advance();
            } else if c == '\n' {
                self.advance();
                self.column = 0;
                self.line = self.line + 1;
            } else {
                return;
            }
        }
    }

    fn make_token(&self, token_type: TokenType, length: usize) -> (r: Token)
        requires
            length <= self.column,
        ensures
            r.token_type == token_type,
            r.line == self.line,
            r.column == self.column - length,
            r.length == length,
    {
        Token { token_type, line: self.line, column: self.column - length as u32, length }
    }

    /// An error reported one column before `column`.
    fn make_error(&self, error_type: LexerErrorType, line: u32, column: u32, length: usize) -> (r:
        LexerError)
        requires
            column >= 1,
        ensures
            r == (LexerError { error_type, line, column: (column - 1) as u32, length }),
    {
        LexerError { error_type, line, column: column - 1, length }
    }

    /// The source characters from `from` to `to`, as a string.
    fn text(&self, from: usize, to: usize) -> (r: String)
        requires
            from <= to <= self.chars.len(),
        ensures
            r@ == self.chars@.subrange(from as int, to as int),
    {
        let mut r = String::new();
        let mut i = from;
        while i < to
            invariant
                from <= i <= to <= self.chars.len(),
                r@ == self.chars@.subrange(from as int, i as int),
            decreases to - i,
        {
            r.push(self.chars[i]);
            assert(r@ =~= self.chars@.subrange(from as int, i + 1));
            i = i + 1;
        }
        r
    }

    /// Whether the source from `from` to `to` spells `word`.
    fn spells(&self, from: usize, to: usize, word: &str) -> (r: bool)
        requires
            from <= to <= self.chars.len(),
        ensures
            r == (self.chars@.subrange(from as int, to as int) == word@),
    {
        let n = word.unicode_len();
        if n != to - from {
            return false;
        }
        let mut i: usize = 0;
        while i < n
            invariant
                from <= to <= self.chars.len(),
                n == to - from,
                n == word@.len(),
                i <= n,
                forall|j: int| 0 <= j < i ==> self.chars@[from + j] == word@[j],
            decreases n - i,
        {
            if self.chars[from + i] != word.get_char(i) {
                assert(self.chars@.subrange(from as int, to as int)[i as int] != word@[i as int]);
                return false;
            }
            i = i + 1;
        }
        assert(self.chars@.subrange(from as int, to as int) =~= word@);
        true
    }

    /// The keyword that the source from `from` to `to` spells, or else the
    /// identifier it is.
    fn word_type(&self, from: usize, to: usize) -> (r: TokenType)
        requires
            from <= to <= self.chars.len(),
        ensures
            r.has_kind(word_kind(self.chars@.subrange(from as int, to as int))),
    {
        if self.spells(from, to, "true") {
            TokenType::Bool(true)
        } else if self.spells(from, to, "false") {
            TokenType::Bool(false)
        } else if self.spells(from, to, "null") {
            TokenType::Null
        } else if self.spells(from, to, "and") {
            TokenType::And
        } else if self.spells(from, to, "or") {
            TokenType::Or
        } else if self.spells(from, to, "not") {
            TokenType::Not
        } else if self.spells(from, to, "if") {
            TokenType::If
        } else if self.spells(from, to, "then") {
            TokenType::Then
        } else if self.spells(from, to, "else") {
            TokenType::Else
        } else if self.spells(from, to, "for") {
            TokenType::For
        } else if self.spells(from, to, "in") {
            TokenType::In
        } else if self.spells(from, to, "do") {
            TokenType::Do
        } else if self.spells(from, to, "loop") {
            TokenType::Loop
        } else if self.spells(from, to, "match") {
            TokenType::Match
        } else if self.spells(from, to, "let") {
            TokenType::Let
        } else if self.spells(from, to, "const") {
            TokenType::Const
        } else if self.spells(from, to, "fn") {
            TokenType::Fn
        } else if self.spells(from, to, "return") {
            TokenType::Return
        } else {
            TokenType::Identifier(self.text(from, to))
        }
    }

    /// Scans an identifier or keyword whose first character was just consumed.
    fn identifier(&mut self) -> (r: Result<Option<Token>, LexerError>)
        requires
            old(self).wf(),
            1 <= old(self).pos,
            1 <= old(self).column,
        ensures
            old(self).ends_scan(*final(self), scan_word(old(self).chars@, old(self).pos - 1), r),
    {
        let ghost s = self.chars@;
        let start = self.pos - 1;
        while self.pos < self.chars.len() && is_ident_char_exec(self.chars[self.pos])
            invariant
                self.wf(),
                self.chars@ == s,
                self.line == old(self).line,
                start < self.pos,
                self.pos - start == self.column - old(self).column + 1,
                ident_end(s, self.pos as int) == ident_end(s, start + 1),
            decreases self.chars.len() - self.pos,
        {
            self.advance();
        }
        let length = self.pos - start;
        let token_type = self.word_type(start, self.pos);
        Ok(Some(self.make_token(token_type, length)))
    }

    /// Scans a number literal whose first digit was just consumed.
    fn number(&mut self, first: char) -> (r: Result<Option<Token>, LexerError>)
        requires
            old(self).wf(),
            1 <= old(self).pos,
            1 <= old(self).column,
            is_digit(first),
            first == old(self).chars@[old(self).pos - 1],
        ensures
            old(self).ends_scan(*final(self), scan_number(old(self).chars@, old(self).pos - 1), r),
    {
        let ghost s = self.chars@;
        let start = self.pos - 1;
        let mut value: u32 = (first as u32) - ('0' as u32);
        let mut too_large = false;
        assert(s.subrange(start as int, start + 1).drop_last() =~= Seq::<char>::empty());
        assert(s.subrange(start as int, start + 1).last() == first);
        assert(digits_value(Seq::<char>::empty()) == 0);
        assert(digits_value(s.subrange(start as int, start + 1)) == digit_value(first));
        while self.pos < self.chars.len() && is_digit_char(self.chars[self.pos])
            invariant
                self.wf(),
                self.chars@ == s,
                self.line == old(self).line,
                start < self.pos,
                self.pos - start == self.column - old(self).column + 1,
                digits_end(s, self.pos as int) == digits_end(s, start + 1),
                !too_large ==> value == digits_value(s.subrange(start as int, self.pos as int)),
                too_large ==> digits_value(s.subrange(start as int, self.pos as int)) > u32::MAX,
            decreases self.chars.len() - self.pos,
        {
            let ghost before = self.pos;
            let d = self.advance();
            let dv: u32 = (d as u32) - ('0' as u32);
            assert(s.subrange(start as int, before + 1).drop_last() =~= s.subrange(
                start as int,
                before as int,
            ));
            if !too_large {
                let next: u64 = value as u64 * 10 + dv as u64;
                if next > u32::MAX as u64 {
                    too_large = true;
                } else {
                    value = next as u32;
                }
            }
        }
        if self.pos < self.chars.len() && self.chars[self.pos] == '.' {
            self.advance();
            let ghost e1 = self.pos - 1;
            while self.pos < self.chars.len() && is_digit_char(self.chars[self.pos])
                invariant
                    self.wf(),
                    self.chars@ == s,
                    self.line == old(self).line,
                    start < self.pos,
                    self.pos - start == self.column - old(self).column + 1,
                    e1 == digits_end(s, start + 1),
                    digits_end(s, self.pos as int) == digits_end(s, e1 + 1),
                decreases self.chars.len() - self.pos,
            {
                self.advance();
            }
            if self.pos < self.chars.len() && self.chars[self.pos] == '.' {
                return Err(
                    self.make_error(
                        LexerErrorType::MultipleDecimalPoints,
                        self.line,
                        self.column + 1,
                        1,
                    ),
                );
            }
            let length = self.pos - start;
            let literal = self.text(start, self.pos);
            return Ok(Some(self.make_token(TokenType::Float(literal), length)));
        }
        let length = self.pos - start;
        if too_large {
            Err(
                self.make_error(
                    LexerErrorType::IntegerTooLarge,
                    self.line,
                    self.column - length as u32 + 1,
                    length,
                ),
            )
        } else {
            Ok(Some(self.make_token(TokenType::Int(value), length)))
        }
    }

    /// Scans a string literal whose opening quote was just consumed.
    fn string(&mut self) -> (r: Result<Option<Token>, LexerError>)
        requires
            old(self).wf(),
            1 <= old(self).pos,
            1 <= old(self).column,
        ensures
            old(self).ends_scan(*final(self), scan_string(old(self).chars@, old(self).pos - 1), r),
    {
        let ghost s = self.chars@;
        let ghost start = self.pos - 1;
        let mut value = String::new();
        let mut length: usize = 0;
        assert(value@ + Seq::<char>::empty() =~= value@);
        loop
            invariant
                self.wf(),
                self.chars@ == s,
                s == old(self).chars@,
                self.line == old(self).line,
                1 <= old(self).column,
                start == old(self).pos - 1,
                start < self.pos,
                self.pos - start == self.column - old(self).column + 1,
                length == self.pos - start - 1,
                string_body(s, start + 1) == with_prefix(value@, string_body(s, self.pos as int)),
            decreases self.chars.len() - self.pos,
        {
            if self.is_at_end() {
                assert(string_body(s, start + 1) == StrBody::Unclosed {
                    end: s.len() as int,
                    newline: false,
                });
                return Err(
                    self.make_error(LexerErrorType::UnterminatedString, self.line, self.column + 1, 1),
                );
            }
            let ghost at = self.pos as int;
            let c = self.advance();
            if c == '\n' {
                assert(string_body(s, start + 1) == StrBody::Unclosed { end: at + 1, newline: true });
                return Err(
                    self.make_error(LexerErrorType::UnterminatedString, self.line, self.column, 1),
                );
            }
            if c == '"' {
                assert(value@ + Seq::<char>::empty() =~= value@);
                return Ok(Some(self.make_token(TokenType::String(value), length + 2)));
            }
            if c == '\\' {
                if self.is_at_end() {
                    return Err(
                        self.make_error(
                            LexerErrorType::UnterminatedString,
                            self.line,
                            self.column + 1,
                            1,
                        ),
                    );
                }
                let next = self.advance();
                length = length + 2;
                let decoded = if next == 'n' {
                    '\n'
                } else if next == 't' {
                    '\t'
                } else if next == 'r' {
                    '\r'
                } else if next == '\\' {
                    '\\'
                } else if next == '"' {
                    '"'
                } else {
                    assert(string_body(s, start + 1) == StrBody::BadEscape { at: at + 1 });
                    return Err(
                        self.make_error(
                            LexerErrorType::InvalidEscapeSequence,
                            self.line,
                            self.column - 1,
                            2,
                        ),
                    );
                };
                proof {
                    lemma_with_prefix_twice(value@, seq![decoded], string_body(s, at + 2));
                    assert(value@ + seq![decoded] =~= value@.push(decoded));
                }
                value.push(decoded);
            } else {
                proof {
                    lemma_with_prefix_twice(value@, seq![c], string_body(s, at + 1));
                    assert(value@ + seq![c] =~= value@.push(c));
                }
                value.push(c);
                length = length + 1;
            }
        }
    }

    /// Scans a character literal whose opening quote was just consumed.
    fn char_literal(&mut self) -> (r: Result<Option<Token>, LexerError>)
        requires
            old(self).wf(),
            1 <= old(self).pos,
            1 <= old(self).column,
        ensures
            old(self).ends_scan(*final(self), scan_char(old(self).chars@, old(self).pos - 1), r),
    {
        if self.is_at_end() {
            return Err(
                self.make_error(LexerErrorType::UnterminatedCharacter, self.line, self.column + 1, 1),
            );
        }
        let c = self.advance();
        let mut length: usize = 0;
        let value = if c == '\\' {
            length = length + 1;
            if self.is_at_end() {
                return Err(
                    self.make_error(
                        LexerErrorType::UnterminatedCharacter,
                        self.line,
                        self.column,
                        1,
                    ),
                );
            }
            let escaped = self.advance();
            length = length + 1;
            if escaped == 'n' {
                '\n'
            } else if escaped == 't' {
                '\t'
            } else if escaped == 'r' {
                '\r'
            } else if escaped == '\\' {
                '\\'
            } else if escaped == '\'' {
                '\''
            } else {
                return Err(
                    self.make_error(
                        LexerErrorType::InvalidEscapeSequence,
                        self.line,
                        self.column - 1,
                        2,
                    ),
                );
            }
        } else if c == '\'' {
            return Err(
                self.make_error(LexerErrorType::EmptyCharacter, self.line, self.column - 1, 2),
            );
        } else if c == '\n' {
            return Err(
                self.make_error(LexerErrorType::UnterminatedCharacter, self.line, self.column, 1),
            );
        } else {
            length = length + 1;
            c
        };
        if self.is_at_end() {
            return Err(
                self.make_error(LexerErrorType::UnterminatedCharacter, self.line, self.column + 1, 1),
            );
        }
        if self.advance() == '\'' {
            Ok(Some(self.make_token(TokenType::Char(value), length + 2)))
        } else {
            Err(self.make_error(LexerErrorType::UnterminatedCharacter, self.line, self.column, 1))
        }
    }

    /// A token of one character, or of two where the next character is
    /// `second`.
    fn one_or_two(&mut self, second: char, two: TokenType, one: TokenType) -> (r: Token)
        requires
            old(self).wf(),
            1 <= old(self).pos,
            1 <= old(self).column,
        ensures
            old(self).ends_scan(
                *final(self),
                one_or_two(old(self).chars@, old(self).pos - 1, second, two, one),
                Ok(Some(r)),
            ),
    {
        if self.match_char(second) {
            self.make_token(two, 2)
        } else {
            self.make_token(one, 1)
        }
    }

    /// The next token, `None` at the end of the source, or the first lexical
    /// error met.
    pub fn get_token(&mut self) -> (r: Result<Option<Token>, LexerError>)
        requires
            old(self).wf(),
        ensures
            final(self).wf(),
            final(self)@ == next_state(old(self)@),
            result_is(r, next_outcome(old(self)@)),
    {
        self.skip_whitespace();
        if self.is_at_end() {
            return Ok(None);
        }
        let c = self.advance();
        if c == '(' {
            Ok(Some(self.make_token(TokenType::LeftParenthesis, 1)))
        } else if c == ')' {
            Ok(Some(self.make_token(TokenType::RightParenthesis, 1)))
        } else if c == '{' {
            Ok(Some(self.make_token(TokenType::LeftBrace, 1)))
        } else if c == '}' {
            Ok(Some(self.make_token(TokenType::RightBrace, 1)))
        } else if c == '.' {
            Ok(Some(self.make_token(TokenType::Dot, 1)))
        } else if c == ',' {
            Ok(Some(self.make_token(TokenType::Comma, 1)))
        } else if c == ';' {
            Ok(Some(self.make_token(TokenType::Semicolon, 1)))
        } else if c == '+' {
            Ok(Some(self.one_or_two('=', TokenType::PlusEqual, TokenType::Plus)))
        } else if c == '-' {
            Ok(Some(self.one_or_two('=', TokenType::MinusEqual, TokenType::Minus)))
        } else if c == '*' {
            Ok(Some(self.one_or_two('=', TokenType::AsteriskEqual, TokenType::Asterisk)))
        } else if c == '/' {
            Ok(Some(self.one_or_two('=', TokenType::SlashEqual, TokenType::Slash)))
        } else if c == '=' {
            if self.match_char('=') {
                Ok(Some(self.make_token(TokenType::DoubleEqual, 2)))
            } else if self.match_char('>') {
                Ok(Some(self.make_token(TokenType::Arrow, 2)))
            } else {
                Ok(Some(self.make_token(TokenType::Equal, 1)))
            }
        } else if c == '>' {
            Ok(Some(self.one_or_two('=', TokenType::GreaterEqual, TokenType::Greater)))
        } else if c == '<' {
            Ok(Some(self.one_or_two('=', TokenType::LessEqual, TokenType::Less)))
        } else if c == '!' {
            if self.match_char('=') {
                Ok(Some(self.make_token(TokenType::NotEqual, 2)))
            } else {
                Err(
                    self.make_error(
                        LexerErrorType::UnexpectedCharacter(c, Some('=')),
                        self.line,
                        self.column,
                        1,
                    ),
                )
            }
        } else if is_digit_char(c) {
            self.number(c)
        } else if c == '"' {
            self.string()
        } else if c == '\'' {
            self.char_literal()
        } else if is_ident_start_char(c) {
            self.identifier()
        } else {
            Err(
                self.make_error(
                    LexerErrorType::UnexpectedCharacter(c, None),
                    self.line,
                    self.column,
                    1,
                ),
            )
        }
    }
}


proof fn lemma_ident_end_whole(w: Seq<char>, i: int)
    requires
        0 <= i <= w.len(),
        forall|j: int| 0 <= j < w.len() ==> is_ident_char(#[trigger] w[j]),
    ensures
        ident_end(w, i) == w.len(),
    decreases w.len() - i,
{
    if i < w.len() {
        lemma_ident_end_whole(w, i + 1);
    }
}

/// A source made of one identifier-shaped word (a letter or underscore, then
/// letters, digits and underscores) lexes first to a token as long as the
/// word: the word's keyword where it is one, and otherwise an identifier
/// naming the word.
pub proof fn lemma_word_token(w: Seq<char>)
    requires
        w.len() > 0,
        is_ident_start(w[0]),
        forall|j: int| 0 <= j < w.len() ==> is_ident_char(#[trigger] w[j]),
    ensures
        next_outcome(LexerState::start(w)) == (Outcome::Token {
            kind: word_kind(w),
            line: 0,
            column: 0,
            length: w.len(),
        }),
        word_kind(w) is Name ==> word_kind(w) == Kind::Name(w),
{
    assert(skip_blank(w, 0, 0, 0) == (0nat, 0nat, 0nat));
    lemma_ident_end_whole(w, 1);
    assert(w.subrange(0, w.len() as int) =~= w);
}

} // verus!
