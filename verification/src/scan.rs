//! The ghost model of the scanner: a total, deterministic decision function
//! that says, for any source text and cursor position, what one scanning
//! step yields and where the cursor stands afterwards. The executable
//! scanner in [`crate::lexer`] is proved to agree with this model.

use vstd::prelude::*;
use crate::tokens::{keyword_kind, token_type, upper_seq};

verus! {

/// The character at position `i` of `s`, or the NUL sentinel when `i` is
/// out of bounds. NUL stands for "no character here" / end of input.
pub open spec fn char_at(s: Seq<char>, i: int) -> char {
    if 0 <= i < s.len() {
        s[i]
    } else {
        '\0'
    }
}

/// Whitespace that separates tokens: space, tab, carriage return.
/// A newline is not whitespace — it is a significant token of its own.
pub open spec fn is_space(c: char) -> bool {
    c == ' ' || c == '\t' || c == '\r'
}

/// ASCII decimal digits.
pub open spec fn is_digit(c: char) -> bool {
    48 <= (c as u32) && (c as u32) <= 57
}

/// ASCII letters, the characters an identifier may start with.
pub open spec fn is_letter(c: char) -> bool {
    (65 <= (c as u32) && (c as u32) <= 90) || (97 <= (c as u32) && (c as u32) <= 122)
}

/// ASCII letters and digits, the characters an identifier may continue with.
pub open spec fn is_ident_char(c: char) -> bool {
    is_letter(c) || is_digit(c)
}

/// Characters that may not appear inside a string literal: no escape
/// sequences, no multi-line strings, no interpolation placeholders.
pub open spec fn is_forbidden_in_string(c: char) -> bool {
    c == '\r' || c == '\t' || c == '\n' || c == '\\' || c == '%'
}

/// A fatal lexical error. The whole lex session must be abandoned: no
/// partial or garbled token is ever returned.
#[derive(Clone, Copy, Debug, PartialEq, Eq, Structural)]
pub enum LexError {
    /// A string literal holds a forbidden control or format character.
    ForbiddenCharInString,
    /// A decimal point with no digit after it.
    NoDigitAfterDecimalPoint,
    /// A string literal still open at the end of the input.
    UnterminatedString,
}

impl LexError {
    /// The descriptive diagnostic text of this error.
    pub open spec fn message_spec(self) -> Seq<char> {
        match self {
            LexError::ForbiddenCharInString => "Found special characters in string"@,
            LexError::NoDigitAfterDecimalPoint => "No digit found after decimal point"@,
            LexError::UnterminatedString => "String literal is never closed"@,
        }
    }

    /// A human-readable diagnostic for this error.
    pub fn message(&self) -> (m: &'static str)
        ensures
            m@ == self.message_spec(),
    {
        match self {
            LexError::ForbiddenCharInString => "Found special characters in string",
            LexError::NoDigitAfterDecimalPoint => "No digit found after decimal point",
            LexError::UnterminatedString => "String literal is never closed",
        }
    }
}

/// One step of the ghost scanner: what a single scanning step yields and
/// where the cursor stands afterwards.
pub enum ScanStep {
    /// A token was produced: its kind, its lexeme, and the cursor position
    /// just past it.
    Tok { kind: token_type, lexeme: Seq<char>, next: int },
    /// One character was consumed without producing a token: an
    /// unrecognized character, or a bare `!` not followed by `=`.
    Invalid { next: int },
    /// A fatal lexical error; the session ends here.
    Fatal { err: LexError },
}

/// First position at or after `pos` that does not hold whitespace.
pub open spec fn skip_spaces(s: Seq<char>, pos: int) -> int
    decreases s.len() - pos,
{
    if 0 <= pos < s.len() && is_space(s[pos]) {
        skip_spaces(s, pos + 1)
    } else {
        pos
    }
}

/// First position at or after `pos` that holds a newline, or the end of the
/// input, whichever comes first.
pub open spec fn line_end(s: Seq<char>, pos: int) -> int
    decreases s.len() - pos,
{
    if 0 <= pos < s.len() && s[pos] != '\n' {
        line_end(s, pos + 1)
    } else {
        pos
    }
}

/// First position at or after `pos` that does not hold a digit.
pub open spec fn digits_end(s: Seq<char>, pos: int) -> int
    decreases s.len() - pos,
{
    if 0 <= pos < s.len() && is_digit(s[pos]) {
        digits_end(s, pos + 1)
    } else {
        pos
    }
}

/// First position at or after `pos` that does not hold a letter or digit.
pub open spec fn ident_end(s: Seq<char>, pos: int) -> int
    decreases s.len() - pos,
{
    if 0 <= pos < s.len() && is_ident_char(s[pos]) {
        ident_end(s, pos + 1)
    } else {
        pos
    }
}

/// First position at or after `pos` where a string literal body stops: a
/// closing quote, a forbidden character, or the end of the input.
pub open spec fn string_end(s: Seq<char>, pos: int) -> int
    decreases s.len() - pos,
{
    if 0 <= pos < s.len() && s[pos] != '"' && !is_forbidden_in_string(s[pos]) {
        string_end(s, pos + 1)
    } else {
        pos
    }
}

/// Where token recognition starts: whitespace skipped, then one `//`
/// comment skipped. The comment runs up to, but not including, the next
/// newline — the newline itself is still a token — or to the end of the
/// input, whichever comes first.
pub open spec fn token_start(s: Seq<char>, pos: int) -> int {
    let p = skip_spaces(s, pos);
    if char_at(s, p) == '/' && char_at(s, p + 1) == '/' {
        line_end(s, p)
    } else {
        p
    }
}

/// The kind an identifier span is classified as: the matching reserved word
/// if its uppercased spelling is in the keyword table, a plain identifier
/// otherwise.
pub open spec fn ident_kind(lexeme: Seq<char>) -> token_type {
    match keyword_kind(upper_seq(lexeme)) {
        Some(k) => k,
        None => token_type::IDENT,
    }
}

/// A string literal starting with the opening quote at `p`: the lexeme is
/// the content strictly between the quotes. A forbidden character before
/// the closing quote, or an input that ends before one, is fatal.
pub open spec fn scan_string(s: Seq<char>, p: int) -> ScanStep {
    let e = string_end(s, p + 1);
    if e == s.len() {
        ScanStep::Fatal { err: LexError::UnterminatedString }
    } else if s[e] == '"' {
        ScanStep::Tok { kind: token_type::STRING, lexeme: s.subrange(p + 1, e), next: e + 1 }
    } else {
        ScanStep::Fatal { err: LexError::ForbiddenCharInString }
    }
}

/// A number literal starting with the digit at `p`: a maximal digit run,
/// then optionally a decimal point that must be followed by at least one
/// digit and continues with a maximal digit run.
pub open spec fn scan_number(s: Seq<char>, p: int) -> ScanStep {
    let d = digits_end(s, p);
    if char_at(s, d) == '.' {
        if is_digit(char_at(s, d + 1)) {
            let f = digits_end(s, d + 1);
            ScanStep::Tok { kind: token_type::NUMBER, lexeme: s.subrange(p, f), next: f }
        } else {
            ScanStep::Fatal { err: LexError::NoDigitAfterDecimalPoint }
        }
    } else {
        ScanStep::Tok { kind: token_type::NUMBER, lexeme: s.subrange(p, d), next: d }
    }
}

/// An identifier or reserved word starting with the letter at `p`: a
/// maximal run of letters and digits, classified case-insensitively.
pub open spec fn scan_ident(s: Seq<char>, p: int) -> ScanStep {
    let e = ident_end(s, p);
    ScanStep::Tok { kind: ident_kind(s.subrange(p, e)), lexeme: s.subrange(p, e), next: e }
}

/// The token decision at position `p`, with `p` already past whitespace
/// and comments.
pub open spec fn scan_at(s: Seq<char>, p: int) -> ScanStep {
    let c = char_at(s, p);
    if c == '+' {
        ScanStep::Tok { kind: token_type::PLUS, lexeme: seq!['+'], next: p + 1 }
    } else if c == '-' {
        ScanStep::Tok { kind: token_type::MINUS, lexeme: seq!['-'], next: p + 1 }
    } else if c == '*' {
        ScanStep::Tok { kind: token_type::ASTERISK, lexeme: seq!['*'], next: p + 1 }
    } else if c == '/' {
        ScanStep::Tok { kind: token_type::SLASH, lexeme: seq!['/'], next: p + 1 }
    } else if c == '\n' {
        ScanStep::Tok { kind: token_type::NEWLINE, lexeme: seq!['\n'], next: p + 1 }
    } else if c == '\0' {
        // The sentinel: end of input, or an embedded NUL character, which
        // also reads as "no character here". At the end of the input the
        // cursor does not move, so this step repeats forever.
        ScanStep::Tok {
            kind: token_type::EOF,
            lexeme: Seq::empty(),
            next: if 0 <= p < s.len() {
                p + 1
            } else {
                s.len() as int
            },
        }
    } else if c == '=' {
        if char_at(s, p + 1) == '=' {
            ScanStep::Tok { kind: token_type::EQEQ, lexeme: seq!['=', '='], next: p + 2 }
        } else {
            ScanStep::Tok { kind: token_type::EQ, lexeme: seq!['='], next: p + 1 }
        }
    } else if c == '>' {
        if char_at(s, p + 1) == '=' {
            ScanStep::Tok { kind: token_type::GTEQ, lexeme: seq!['>', '='], next: p + 2 }
        } else {
            ScanStep::Tok { kind: token_type::GT, lexeme: seq!['>'], next: p + 1 }
        }
    } else if c == '<' {
        if char_at(s, p + 1) == '=' {
            ScanStep::Tok { kind: token_type::LTEQ, lexeme: seq!['<', '='], next: p + 2 }
        } else {
            ScanStep::Tok { kind: token_type::LT, lexeme: seq!['<'], next: p + 1 }
        }
    } else if c == '!' {
        if char_at(s, p + 1) == '=' {
            ScanStep::Tok { kind: token_type::NOTEQ, lexeme: seq!['!', '='], next: p + 2 }
        } else {
            ScanStep::Invalid { next: p + 1 }
        }
    } else if c == '"' {
        scan_string(s, p)
    } else if is_digit(c) {
        scan_number(s, p)
    } else if is_letter(c) {
        scan_ident(s, p)
    } else {
        ScanStep::Invalid { next: p + 1 }
    }
}

/// The complete decision of one scanning step on source `s` at cursor
/// position `pos`.
pub open spec fn scan(s: Seq<char>, pos: int) -> ScanStep {
    scan_at(s, token_start(s, pos))
}

/// The kind of the token that a single-character operator or a newline
/// maps to.
pub open spec fn single_char_kind(c: char) -> token_type {
    if c == '+' {
        token_type::PLUS
    } else if c == '-' {
        token_type::MINUS
    } else if c == '*' {
        token_type::ASTERISK
    } else if c == '/' {
        token_type::SLASH
    } else {
        token_type::NEWLINE
    }
}

/// The kind of `==`, `>=`, `<=` or `!=`, named by its first character.
pub open spec fn double_op_kind(c: char) -> token_type {
    if c == '=' {
        token_type::EQEQ
    } else if c == '>' {
        token_type::GTEQ
    } else if c == '<' {
        token_type::LTEQ
    } else {
        token_type::NOTEQ
    }
}

/// The kind of `=`, `>` or `<` standing alone.
pub open spec fn single_op_kind(c: char) -> token_type {
    if c == '=' {
        token_type::EQ
    } else if c == '>' {
        token_type::GT
    } else {
        token_type::LT
    }
}

/// Law: a single-character operator or a newline, alone in the input,
/// yields exactly one token of the matching kind whose lexeme is that one
/// character, and the step after it yields end of input.
pub proof fn lemma_single_char_token(c: char)
    requires
        c == '+' || c == '-' || c == '*' || c == '/' || c == '\n',
    ensures
        scan(seq![c], 0) == (ScanStep::Tok { kind: single_char_kind(c), lexeme: seq![c], next: 1 }),
        scan(seq![c], 1) == (ScanStep::Tok {
            kind: token_type::EOF,
            lexeme: Seq::<char>::empty(),
            next: 1,
        }),
{
}

/// Law: `=`, `>`, `<` and `!` followed by `=` yield the doubled-operator
/// kind, consuming both characters. Followed by anything else — or by
/// nothing — `=`, `>` and `<` yield their single-character kind, while a
/// bare `!` yields the invalid-token outcome: one character consumed, no
/// token produced.
pub proof fn lemma_two_char_operator(s: Seq<char>, p: int)
    requires
        char_at(s, p) == '=' || char_at(s, p) == '>' || char_at(s, p) == '<' || char_at(s, p)
            == '!',
    ensures
        char_at(s, p + 1) == '=' ==> scan_at(s, p) == (ScanStep::Tok {
            kind: double_op_kind(char_at(s, p)),
            lexeme: seq![char_at(s, p), '='],
            next: p + 2,
        }),
        char_at(s, p + 1) != '=' && char_at(s, p) != '!' ==> scan_at(s, p) == (ScanStep::Tok {
            kind: single_op_kind(char_at(s, p)),
            lexeme: seq![char_at(s, p)],
            next: p + 1,
        }),
        char_at(s, p + 1) != '=' && char_at(s, p) == '!' ==> scan_at(s, p) == (ScanStep::Invalid {
            next: p + 1,
        }),
{
}

/// Law: keyword recognition is case-insensitive — two identifier spans
/// whose uppercased spellings agree are classified as the same kind.
pub proof fn lemma_keyword_case_insensitive(a: Seq<char>, b: Seq<char>)
    requires
        upper_seq(a) == upper_seq(b),
    ensures
        ident_kind(a) == ident_kind(b),
{
}

/// Law: end-of-file idempotence — with the cursor at or past the end of
/// the input, a scanning step yields the end-of-file token and leaves the
/// cursor at the end, so every further step yields it again.
pub proof fn lemma_eof_idempotent(s: Seq<char>, pos: int)
    requires
        s.len() <= pos,
    ensures
        scan(s, pos) == (ScanStep::Tok {
            kind: token_type::EOF,
            lexeme: Seq::<char>::empty(),
            next: s.len() as int,
        }),
{
}

/// Law: scanning makes progress — a step that yields a token or the
/// invalid outcome leaves the cursor inside the buffer, strictly beyond
/// where it stood, except that the end-of-file token at the very end
/// leaves the cursor in place. A driver that stops at end of file or on an
/// error therefore terminates.
pub proof fn lemma_scan_progress(s: Seq<char>, pos: int)
    requires
        0 <= pos <= s.len(),
    ensures
        match scan(s, pos) {
            ScanStep::Tok { kind, lexeme, next } => pos <= next <= s.len() && (next == pos
                ==> kind == token_type::EOF && pos == s.len()),
            ScanStep::Invalid { next } => pos < next <= s.len(),
            ScanStep::Fatal { err } => true,
        },
{
    lemma_skip_spaces(s, pos);
    let q = skip_spaces(s, pos);
    if char_at(s, q) == '/' && char_at(s, q + 1) == '/' {
        lemma_line_end(s, q);
    }
    let p = token_start(s, pos);
    assert(pos <= p <= s.len());
    let c = char_at(s, p);
    if c == '"' {
        lemma_string_end(s, p + 1);
    } else if is_digit(c) {
        lemma_digits_end(s, p + 1);
        let d = digits_end(s, p);
        assert(d == digits_end(s, p + 1));
        if char_at(s, d) == '.' && is_digit(char_at(s, d + 1)) {
            lemma_digits_end(s, d + 2);
            assert(digits_end(s, d + 1) == digits_end(s, d + 2));
        }
    } else if is_letter(c) {
        lemma_ident_end(s, p + 1);
        assert(ident_end(s, p) == ident_end(s, p + 1));
    }
}

/// Whitespace skipping stays inside the buffer and stops at a
/// non-whitespace character.
pub proof fn lemma_skip_spaces(s: Seq<char>, pos: int)
    requires
        0 <= pos <= s.len(),
    ensures
        pos <= skip_spaces(s, pos) <= s.len(),
        !is_space(char_at(s, skip_spaces(s, pos))),
    decreases s.len() - pos,
{
    if pos < s.len() && is_space(s[pos]) {
        lemma_skip_spaces(s, pos + 1);
    }
}

/// A comment run stays inside the buffer and stops at a newline or at the
/// end of the input, whichever comes first.
pub proof fn lemma_line_end(s: Seq<char>, pos: int)
    requires
        0 <= pos <= s.len(),
    ensures
        pos <= line_end(s, pos) <= s.len(),
        line_end(s, pos) == s.len() || char_at(s, line_end(s, pos)) == '\n',
    decreases s.len() - pos,
{
    if pos < s.len() && s[pos] != '\n' {
        lemma_line_end(s, pos + 1);
    }
}

/// A digit run stays inside the buffer and stops at a non-digit.
pub proof fn lemma_digits_end(s: Seq<char>, pos: int)
    requires
        0 <= pos <= s.len(),
    ensures
        pos <= digits_end(s, pos) <= s.len(),
        !is_digit(char_at(s, digits_end(s, pos))),
    decreases s.len() - pos,
{
    if pos < s.len() && is_digit(s[pos]) {
        lemma_digits_end(s, pos + 1);
    }
}

/// An identifier run stays inside the buffer and stops at a character that
/// is neither a letter nor a digit.
pub proof fn lemma_ident_end(s: Seq<char>, pos: int)
    requires
        0 <= pos <= s.len(),
    ensures
        pos <= ident_end(s, pos) <= s.len(),
        !is_ident_char(char_at(s, ident_end(s, pos))),
    decreases s.len() - pos,
{
    if pos < s.len() && is_ident_char(s[pos]) {
        lemma_ident_end(s, pos + 1);
    }
}

/// A string literal body stays inside the buffer and stops at a closing
/// quote, a forbidden character, or the end of the input.
pub proof fn lemma_string_end(s: Seq<char>, pos: int)
    requires
        0 <= pos <= s.len(),
    ensures
        pos <= string_end(s, pos) <= s.len(),
        string_end(s, pos) == s.len() || s[string_end(s, pos)] == '"' || is_forbidden_in_string(
            s[string_end(s, pos)],
        ),
    decreases s.len() - pos,
{
    if pos < s.len() && s[pos] != '"' && !is_forbidden_in_string(s[pos]) {
        lemma_string_end(s, pos + 1);
    }
}

} // verus!
