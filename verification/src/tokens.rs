//! The token data model: token kinds, tokens, and the keyword table.

use vstd::prelude::*;

verus! {

/// The classification of a lexical token.
///
/// Four families: structural markers (end of input, newline — a newline is a
/// significant token that terminates statements, not whitespace), literals
/// and names, reserved words, and operators.
#[allow(non_camel_case_types)]
#[derive(Clone, Copy, Debug, PartialEq, Eq, Structural)]
pub enum token_type {
    EOF,
    NEWLINE,
    NUMBER,
    IDENT,
    STRING,
    // keywords
    LABEL,
    GOTO,
    PRINT,
    INPUT,
    LET,
    IF,
    THEN,
    ENDIF,
    WHILE,
    REPEAT,
    ENDWHILE,
    // operators
    EQ,
    PLUS,
    MINUS,
    ASTERISK,
    SLASH,
    EQEQ,
    NOTEQ,
    LT,
    LTEQ,
    GT,
    GTEQ,
}

/// A classified token: its kind and the source text it was matched from.
///
/// For string literals the text is the content strictly between the quotes;
/// for numbers and identifiers it is the matched span; for operators and
/// newline it is the operator text itself; for end of input it is empty.
#[derive(Debug)]
pub struct Token {
    pub text: String,
    pub kind: token_type,
}

impl Token {
    pub fn new(text: String, kind: token_type) -> (t: Token)
        ensures
            t.text == text,
            t.kind == kind,
    {
        Token { text, kind }
    }

    /// Looks up an exact (already uppercased) spelling in the keyword table.
    pub fn get_keyword(text: &str) -> (r: Option<token_type>)
        ensures
            r == keyword_kind(text@),
    {
        if str_eq(text, "LABEL") {
            Some(token_type::LABEL)
        } else if str_eq(text, "GOTO") {
            Some(token_type::GOTO)
        } else if str_eq(text, "PRINT") {
            Some(token_type::PRINT)
        } else if str_eq(text, "INPUT") {
            Some(token_type::INPUT)
        } else if str_eq(text, "LET") {
            Some(token_type::LET)
        } else if str_eq(text, "IF") {
            Some(token_type::IF)
        } else if str_eq(text, "THEN") {
            Some(token_type::THEN)
        } else if str_eq(text, "ENDIF") {
            Some(token_type::ENDIF)
        } else if str_eq(text, "WHILE") {
            Some(token_type::WHILE)
        } else if str_eq(text, "REPEAT") {
            Some(token_type::REPEAT)
        } else if str_eq(text, "ENDWHILE") {
            Some(token_type::ENDWHILE)
        } else {
            None
        }
    }
}

/// The keyword table as a mathematical map from uppercase spellings to kinds.
pub open spec fn keyword_kind(s: Seq<char>) -> Option<token_type> {
    if s == "LABEL"@ {
        Some(token_type::LABEL)
    } else if s == "GOTO"@ {
        Some(token_type::GOTO)
    } else if s == "PRINT"@ {
        Some(token_type::PRINT)
    } else if s == "INPUT"@ {
        Some(token_type::INPUT)
    } else if s == "LET"@ {
        Some(token_type::LET)
    } else if s == "IF"@ {
        Some(token_type::IF)
    } else if s == "THEN"@ {
        Some(token_type::THEN)
    } else if s == "ENDIF"@ {
        Some(token_type::ENDIF)
    } else if s == "WHILE"@ {
        Some(token_type::WHILE)
    } else if s == "REPEAT"@ {
        Some(token_type::REPEAT)
    } else if s == "ENDWHILE"@ {
        Some(token_type::ENDWHILE)
    } else {
        None
    }
}

/// Character-wise equality of two string slices.
pub fn str_eq(a: &str, b: &str) -> (r: bool)
    ensures
        r == (a@ == b@),
{
    let alen = a.unicode_len();
    let blen = b.unicode_len();
    if alen != blen {
        return false;
    }
    let mut i: usize = 0;
    while i < alen
        invariant
            alen == a@.len(),
            blen == b@.len(),
            alen == blen,
            i <= alen,
            forall|j: int| 0 <= j < i ==> a@[j] == b@[j],
        decreases alen - i,
    {
        if a.get_char(i) != b.get_char(i) {
            return false;
        }
        i += 1;
    }
    proof {
        assert(a@ =~= b@);
    }
    true
}

/// ASCII lowercase letters, the only characters that uppercasing changes.
pub open spec fn is_lower(c: char) -> bool {
    97 <= (c as u32) && (c as u32) <= 122
}

/// Maps an ASCII lowercase letter to its uppercase form; anything else is
/// left unchanged.
pub open spec fn upper_char(c: char) -> char {
    if is_lower(c) {
        ((c as u32) - 32) as char
    } else {
        c
    }
}

/// A sequence of characters, uppercased character by character.
pub open spec fn upper_seq(s: Seq<char>) -> Seq<char> {
    s.map_values(|c: char| upper_char(c))
}

/// Uppercases one character.
pub fn to_upper_char(c: char) -> (r: char)
    ensures
        r == upper_char(c),
{
    match c {
        'a' => 'A',
        'b' => 'B',
        'c' => 'C',
        'd' => 'D',
        'e' => 'E',
        'f' => 'F',
        'g' => 'G',
        'h' => 'H',
        'i' => 'I',
        'j' => 'J',
        'k' => 'K',
        'l' => 'L',
        'm' => 'M',
        'n' => 'N',
        'o' => 'O',
        'p' => 'P',
        'q' => 'Q',
        'r' => 'R',
        's' => 'S',
        't' => 'T',
        'u' => 'U',
        'v' => 'V',
        'w' => 'W',
        'x' => 'X',
        'y' => 'Y',
        'z' => 'Z',
        _ => c,
    }
}

/// Compares a string slice, uppercased, against an expected spelling.
pub fn str_eq_upper(a: &str, b: &str) -> (r: bool)
    ensures
        r == (upper_seq(a@) == b@),
{
    let alen = a.unicode_len();
    let blen = b.unicode_len();
    if alen != blen {
        proof {
            assert(upper_seq(a@).len() == a@.len());
        }
        return false;
    }
    let mut i: usize = 0;
    while i < alen
        invariant
            alen == a@.len(),
            blen == b@.len(),
            alen == blen,
            i <= alen,
            forall|j: int| 0 <= j < i ==> upper_char(a@[j]) == b@[j],
        decreases alen - i,
    {
        if to_upper_char(a.get_char(i)) != b.get_char(i) {
            proof {
                assert(upper_seq(a@)[i as int] == upper_char(a@[i as int]));
            }
            return false;
        }
        i += 1;
    }
    proof {
        assert(upper_seq(a@) =~= b@);
    }
    true
}

/// Looks up a spelling in the keyword table after uppercasing it, so that
/// reserved words are recognized case-insensitively.
pub fn get_keyword_of_upper(text: &str) -> (r: Option<token_type>)
    ensures
        r == keyword_kind(upper_seq(text@)),
{
    if str_eq_upper(text, "LABEL") {
        Some(token_type::LABEL)
    } else if str_eq_upper(text, "GOTO") {
        Some(token_type::GOTO)
    } else if str_eq_upper(text, "PRINT") {
        Some(token_type::PRINT)
    } else if str_eq_upper(text, "INPUT") {
        Some(token_type::INPUT)
    } else if str_eq_upper(text, "LET") {
        Some(token_type::LET)
    } else if str_eq_upper(text, "IF") {
        Some(token_type::IF)
    } else if str_eq_upper(text, "THEN") {
        Some(token_type::THEN)
    } else if str_eq_upper(text, "ENDIF") {
        Some(token_type::ENDIF)
    } else if str_eq_upper(text, "WHILE") {
        Some(token_type::WHILE)
    } else if str_eq_upper(text, "REPEAT") {
        Some(token_type::REPEAT)
    } else if str_eq_upper(text, "ENDWHILE") {
        Some(token_type::ENDWHILE)
    } else {
        None
    }
}

} // verus!
