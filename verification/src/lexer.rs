//! The executable scanner: a cursor over a read-only character buffer that
//! hands out one token per call, proved to agree with the ghost model in
//! [`crate::scan`].

use vstd::prelude::*;
use crate::scan::{
    char_at, digits_end, ident_end, is_digit, is_ident_char, is_letter, is_space, lemma_line_end,
    lemma_skip_spaces, lemma_string_end, line_end, scan, scan_ident, scan_number,
    scan_string, skip_spaces, string_end, token_start, LexError, ScanStep,
};
use crate::tokens::{get_keyword_of_upper, token_type, Token};

verus! {

/// Whether an executable scanning outcome agrees with one step of the ghost
/// model: the returned value, and `end`, the cursor position after the call.
/// After a fatal error the session is over and the cursor position carries
/// no meaning.
pub open spec fn step_matches(r: Result<Option<Token>, LexError>, end: int, step: ScanStep) -> bool {
    match step {
        ScanStep::Tok { kind, lexeme, next } => {
            &&& r matches Ok(Some(t)) && t.kind == kind && t.text@ == lexeme
            &&& end == next
        },
        ScanStep::Invalid { next } => {
            &&& r matches Ok(None)
            &&& end == next
        },
        ScanStep::Fatal { err } => r matches Err(e) && e == err,
    }
}

/// A pull-based scanner over a read-only source buffer.
///
/// The cursor is the only mutable state: `cur_char` always holds the
/// character at `cur_pos`, or the NUL sentinel once the cursor stands at
/// the end of the buffer. Positions count characters, not bytes.
pub struct Lexer<'a> {
    pub source: &'a str,
    pub cur_char: char,
    pub cur_pos: usize,
}

impl<'a> Lexer<'a> {
    /// The cursor invariant: the position is inside the buffer or just past
    /// it, and the current character mirrors the buffer at that position,
    /// with NUL standing in at the end.
    pub open spec fn wf(self) -> bool {
        &&& self.cur_pos <= self.source@.len()
        &&& self.cur_char == char_at(self.source@, self.cur_pos as int)
    }

    /// Starts a lex session at the beginning of `input`.
    pub fn new(input: &'a str) -> (l: Lexer<'a>)
        ensures
            l.wf(),
            l.source == input,
            l.cur_pos == 0,
    {
        let n = input.unicode_len();
        let first = if n > 0 {
            input.get_char(0)
        } else {
            '\0'
        };
        Lexer { source: input, cur_char: first, cur_pos: 0 }
    }

    /// Moves the cursor one character forward; at the end of the buffer the
    /// cursor stays put and the current character remains the NUL sentinel,
    /// so calling this repeatedly past the end has no further effect.
    pub fn next_char(&mut self)
        requires
            old(self).wf(),
        ensures
            final(self).wf(),
            final(self).source == old(self).source,
            old(self).cur_pos < old(self).source@.len() ==> final(self).cur_pos == old(
                self,
            ).cur_pos + 1,
            old(self).cur_pos == old(self).source@.len() ==> final(self).cur_pos == old(
                self,
            ).cur_pos,
    {
        let n = self.source.unicode_len();
        if self.cur_pos < n {
            self.cur_pos = self.cur_pos + 1;
        }
        if self.cur_pos < n {
            self.cur_char = self.source.get_char(self.cur_pos);
        } else {
            self.cur_char = '\0';
        }
    }

    /// Returns the character one position ahead of the cursor without
    /// moving it, or the NUL sentinel if that position is out of bounds.
    pub fn peek(&self) -> (c: char)
        requires
            self.wf(),
        ensures
            c == char_at(self.source@, self.cur_pos + 1),
    {
        let n = self.source.unicode_len();
        if self.cur_pos < n {
            let q = self.cur_pos + 1;
            if q < n {
                self.source.get_char(q)
            } else {
                '\0'
            }
        } else {
            '\0'
        }
    }

    /// Signals an unrecoverable lexical failure: the error ends the whole
    /// lex session, and no partial token is returned.
    pub fn abort(&self, err: LexError) -> (r: Result<Option<Token>, LexError>)
        ensures
            r == Err::<Option<Token>, LexError>(err),
    {
        Err(err)
    }

    /// Consumes the run of whitespace under the cursor, if any. Newlines
    /// are not whitespace and stop the run.
    pub fn skip_whitespace(&mut self)
        requires
            old(self).wf(),
        ensures
            final(self).wf(),
            final(self).source == old(self).source,
            final(self).cur_pos as int == skip_spaces(
                old(self).source@,
                old(self).cur_pos as int,
            ),
    {
        while self.cur_char == ' ' || self.cur_char == '\t' || self.cur_char == '\r'
            invariant
                self.wf(),
                self.source == old(self).source,
                skip_spaces(self.source@, self.cur_pos as int) == skip_spaces(
                    old(self).source@,
                    old(self).cur_pos as int,
                ),
            decreases self.source@.len() - self.cur_pos,
        {
            proof {
                assert(is_space(char_at(self.source@, self.cur_pos as int)));
                assert(self.cur_pos < self.source@.len());
            }
            self.next_char();
        }
        proof {
            assert(!is_space(char_at(self.source@, self.cur_pos as int)));
        }
    }

    /// Consumes a `//` comment under the cursor, if any: everything up to,
    /// but not including, the next newline — the newline itself is still a
    /// token — or up to the end of the input, whichever comes first.
    pub fn skip_comment(&mut self)
        requires
            old(self).wf(),
        ensures
            final(self).wf(),
            final(self).source == old(self).source,
            final(self).cur_pos as int == (if char_at(old(self).source@, old(self).cur_pos as int)
                == '/' && char_at(old(self).source@, old(self).cur_pos + 1) == '/' {
                line_end(old(self).source@, old(self).cur_pos as int)
            } else {
                old(self).cur_pos as int
            }),
    {
        if self.cur_char == '/' && self.peek() == '/' {
            let n = self.source.unicode_len();
            while self.cur_pos < n && self.cur_char != '\n'
                invariant
                    self.wf(),
                    self.source == old(self).source,
                    n == self.source@.len(),
                    line_end(self.source@, self.cur_pos as int) == line_end(
                        old(self).source@,
                        old(self).cur_pos as int,
                    ),
                decreases n - self.cur_pos,
            {
                self.next_char();
            }
        }
    }

    /// Whether the character one position ahead is a digit.
    fn peek_digit(&self) -> (b: bool)
        requires
            self.wf(),
        ensures
            b == is_digit(char_at(self.source@, self.cur_pos + 1)),
    {
        let u = self.peek() as u32;
        48 <= u && u <= 57
    }

    /// Whether the character one position ahead is a letter or a digit.
    fn peek_ident_char(&self) -> (b: bool)
        requires
            self.wf(),
        ensures
            b == is_ident_char(char_at(self.source@, self.cur_pos + 1)),
    {
        let u = self.peek() as u32;
        (65 <= u && u <= 90) || (97 <= u && u <= 122) || (48 <= u && u <= 57)
    }

    /// Scans a string literal: the cursor stands on the opening quote. The
    /// lexeme is the content strictly between the quotes. A forbidden
    /// character before the closing quote, or an input that ends before
    /// one, is a fatal error.
    fn lex_string(&mut self) -> (r: Result<Option<Token>, LexError>)
        requires
            old(self).wf(),
            old(self).cur_char == '"',
        ensures
            final(self).wf(),
            final(self).source == old(self).source,
            step_matches(
                r,
                final(self).cur_pos as int,
                scan_string(old(self).source@, old(self).cur_pos as int),
            ),
    {
        let ghost s = self.source@;
        let ghost p = self.cur_pos as int;
        proof {
            assert(p < s.len());
            lemma_string_end(s, p + 1);
        }
        let n = self.source.unicode_len();
        self.next_char();
        let start = self.cur_pos;
        while self.cur_pos < n && self.cur_char != '"' && !(self.cur_char == '\r' || self.cur_char
            == '\t' || self.cur_char == '\n' || self.cur_char == '\\' || self.cur_char == '%')
            invariant
                self.wf(),
                self.source == old(self).source,
                s == self.source@,
                n == s.len(),
                start == p + 1,
                start <= self.cur_pos,
                string_end(s, p + 1) == string_end(s, self.cur_pos as int),
            decreases n - self.cur_pos,
        {
            self.next_char();
        }
        proof {
            assert(string_end(s, self.cur_pos as int) == self.cur_pos as int);
        }
        if self.cur_pos >= n {
            return self.abort(LexError::UnterminatedString);
        }
        if self.cur_char != '"' {
            return self.abort(LexError::ForbiddenCharInString);
        }
        let text = self.source.substring_char(start, self.cur_pos).to_owned();
        let t = Token::new(text, token_type::STRING);
        self.next_char();
        Ok(Some(t))
    }

    /// Scans a number literal: the cursor stands on its first digit. A
    /// maximal digit run, then optionally a decimal point that must be
    /// followed by at least one digit and a further maximal digit run.
    fn lex_number(&mut self) -> (r: Result<Option<Token>, LexError>)
        requires
            old(self).wf(),
            is_digit(old(self).cur_char),
        ensures
            final(self).wf(),
            final(self).source == old(self).source,
            step_matches(
                r,
                final(self).cur_pos as int,
                scan_number(old(self).source@, old(self).cur_pos as int),
            ),
    {
        let ghost s = self.source@;
        let ghost p = self.cur_pos as int;
        proof {
            assert(p < s.len());
        }
        let n = self.source.unicode_len();
        let start = self.cur_pos;
        while self.peek_digit()
            invariant
                self.wf(),
                self.source == old(self).source,
                s == self.source@,
                n == s.len(),
                start == p,
                p <= self.cur_pos < s.len(),
                is_digit(char_at(s, self.cur_pos as int)),
                digits_end(s, p) == digits_end(s, self.cur_pos + 1),
            decreases s.len() - self.cur_pos,
        {
            self.next_char();
        }
        let ghost d = digits_end(s, p);
        proof {
            assert(d == self.cur_pos + 1);
        }
        if self.peek() == '.' {
            self.next_char();
            if !self.peek_digit() {
                return self.abort(LexError::NoDigitAfterDecimalPoint);
            }
            while self.peek_digit()
                invariant
                    self.wf(),
                    self.source == old(self).source,
                    s == self.source@,
                    n == s.len(),
                    start == p,
                    d <= self.cur_pos < s.len(),
                    digits_end(s, d + 1) == digits_end(s, self.cur_pos + 1),
                decreases s.len() - self.cur_pos,
            {
                self.next_char();
            }
            let text = self.source.substring_char(start, self.cur_pos + 1).to_owned();
            let t = Token::new(text, token_type::NUMBER);
            self.next_char();
            Ok(Some(t))
        } else {
            let text = self.source.substring_char(start, self.cur_pos + 1).to_owned();
            let t = Token::new(text, token_type::NUMBER);
            self.next_char();
            Ok(Some(t))
        }
    }

    /// Scans an identifier or reserved word: the cursor stands on its first
    /// letter. A maximal run of letters and digits; the uppercased spelling
    /// is probed against the keyword table, so reserved words are
    /// recognized in any letter case, while the lexeme keeps the original
    /// spelling.
    fn lex_ident(&mut self) -> (r: Result<Option<Token>, LexError>)
        requires
            old(self).wf(),
            is_letter(old(self).cur_char),
        ensures
            final(self).wf(),
            final(self).source == old(self).source,
            step_matches(
                r,
                final(self).cur_pos as int,
                scan_ident(old(self).source@, old(self).cur_pos as int),
            ),
    {
        let ghost s = self.source@;
        let ghost p = self.cur_pos as int;
        proof {
            assert(p < s.len());
        }
        let n = self.source.unicode_len();
        let start = self.cur_pos;
        while self.peek_ident_char()
            invariant
                self.wf(),
                self.source == old(self).source,
                s == self.source@,
                n == s.len(),
                start == p,
                p <= self.cur_pos < s.len(),
                is_ident_char(char_at(s, self.cur_pos as int)),
                ident_end(s, p) == ident_end(s, self.cur_pos + 1),
            decreases s.len() - self.cur_pos,
        {
            self.next_char();
        }
        let slice = self.source.substring_char(start, self.cur_pos + 1);
        let kind = match get_keyword_of_upper(slice) {
            Some(k) => k,
            None => token_type::IDENT,
        };
        let t = Token::new(slice.to_owned(), kind);
        self.next_char();
        Ok(Some(t))
    }

    /// Produces the next token. Whitespace and one `//` comment are first
    /// consumed silently; then either one token's worth of characters is
    /// consumed and the token returned, or one unrecognized character (or a
    /// bare `!`) is consumed and `Ok(None)` returned, or a malformed
    /// literal ends the session with a fatal error. Once the cursor stands
    /// at the end of the input, every further call returns the end-of-file
    /// token again without moving.
    pub fn get_token(&mut self) -> (r: Result<Option<Token>, LexError>)
        requires
            old(self).wf(),
        ensures
            final(self).wf(),
            final(self).source == old(self).source,
            step_matches(
                r,
                final(self).cur_pos as int,
                scan(old(self).source@, old(self).cur_pos as int),
            ),
    {
        let ghost s = self.source@;
        let ghost pos0 = self.cur_pos as int;
        self.skip_whitespace();
        proof {
            lemma_skip_spaces(s, pos0);
        }
        self.skip_comment();
        let ghost p = token_start(s, pos0);
        proof {
            lemma_line_end(s, skip_spaces(s, pos0));
            assert(self.cur_pos as int == p);
        }
        match self.cur_char {
            '+' => {
                proof {
                    reveal_strlit("+");
                    assert("+"@ =~= seq!['+']);
                }
                let t = Token::new("+".to_owned(), token_type::PLUS);
                self.next_char();
                Ok(Some(t))
            },
            '-' => {
                proof {
                    reveal_strlit("-");
                    assert("-"@ =~= seq!['-']);
                }
                let t = Token::new("-".to_owned(), token_type::MINUS);
                self.next_char();
                Ok(Some(t))
            },
            '*' => {
                proof {
                    reveal_strlit("*");
                    assert("*"@ =~= seq!['*']);
                }
                let t = Token::new("*".to_owned(), token_type::ASTERISK);
                self.next_char();
                Ok(Some(t))
            },
            '/' => {
                proof {
                    reveal_strlit("/");
                    assert("/"@ =~= seq!['/']);
                }
                let t = Token::new("/".to_owned(), token_type::SLASH);
                self.next_char();
                Ok(Some(t))
            },
            '\n' => {
                proof {
                    reveal_strlit("\n");
                    assert("\n"@ =~= seq!['\n']);
                }
                let t = Token::new("\n".to_owned(), token_type::NEWLINE);
                self.next_char();
                Ok(Some(t))
            },
            '\0' => {
                let t = Token::new(String::new(), token_type::EOF);
                self.next_char();
                Ok(Some(t))
            },
            '=' => {
                if self.peek() == '=' {
                    proof {
                        reveal_strlit("==");
                        assert("=="@ =~= seq!['=', '=']);
                    }
                    let t = Token::new("==".to_owned(), token_type::EQEQ);
                    self.next_char();
                    self.next_char();
                    Ok(Some(t))
                } else {
                    proof {
                        reveal_strlit("=");
                        assert("="@ =~= seq!['=']);
                    }
                    let t = Token::new("=".to_owned(), token_type::EQ);
                    self.next_char();
                    Ok(Some(t))
                }
            },
            '>' => {
                if self.peek() == '=' {
                    proof {
                        reveal_strlit(">=");
                        assert(">="@ =~= seq!['>', '=']);
                    }
                    let t = Token::new(">=".to_owned(), token_type::GTEQ);
                    self.next_char();
                    self.next_char();
                    Ok(Some(t))
                } else {
                    proof {
                        reveal_strlit(">");
                        assert(">"@ =~= seq!['>']);
                    }
                    let t = Token::new(">".to_owned(), token_type::GT);
                    self.next_char();
                    Ok(Some(t))
                }
            },
            '<' => {
                if self.peek() == '=' {
                    proof {
                        reveal_strlit("<=");
                        assert("<="@ =~= seq!['<', '=']);
                    }
                    let t = Token::new("<=".to_owned(), token_type::LTEQ);
                    self.next_char();
                    self.next_char();
                    Ok(Some(t))
                } else {
                    proof {
                        reveal_strlit("<");
                        assert("<"@ =~= seq!['<']);
                    }
                    let t = Token::new("<".to_owned(), token_type::LT);
                    self.next_char();
                    Ok(Some(t))
                }
            },
            '!' => {
                if self.peek() == '=' {
                    proof {
                        reveal_strlit("!=");
                        assert("!="@ =~= seq!['!', '=']);
                    }
                    let t = Token::new("!=".to_owned(), token_type::NOTEQ);
                    self.next_char();
                    self.next_char();
                    Ok(Some(t))
                } else {
                    // a bare `!` is not an operator: one character is
                    // consumed and no token is produced
                    self.next_char();
                    Ok(None)
                }
            },
            '"' => self.lex_string(),
            _ => {
                let u = self.cur_char as u32;
                if 48 <= u && u <= 57 {
                    self.lex_number()
                } else if (65 <= u && u <= 90) || (97 <= u && u <= 122) {
                    self.lex_ident()
                } else {
                    // an unrecognized character: consumed, no token
                    self.next_char();
                    Ok(None)
                }
            },
        }
    }
}

} // verus!
