//! The token scanner: how long the token of each lexical kind is at a
//! position of the input.
//!
//! Positions count characters. Every scanner answers with a length, and a
//! length of zero says that no token of that kind starts at the position.

use vstd::prelude::*;
use vstd::string::*;

verus! {

/// The classes of characters that tokens are runs of.
#[derive(Clone, Copy, Debug, PartialEq, Eq, Structural)]
pub enum CharClass {
    /// Unicode white space.
    Whitespace,
    /// A character that may continue an identifier.
    Ident,
    /// A decimal digit or the separator `_`.
    Digit,
}

/// Whether `c` may continue an identifier: an ASCII letter or digit, `_`, or
/// any character outside ASCII.
pub open spec fn ident_char(c: char) -> bool {
    ||| 'a' <= c <= 'z'
    ||| 'A' <= c <= 'Z'
    ||| '0' <= c <= '9'
    ||| c == '_'
    ||| c > '\x7f'
}

/// Whether `c` may start an identifier: an ASCII letter, `_`, or any
/// character outside ASCII.
pub open spec fn ident_start(c: char) -> bool {
    ||| 'a' <= c <= 'z'
    ||| 'A' <= c <= 'Z'
    ||| c == '_'
    ||| c > '\x7f'
}

/// Whether `c` is a decimal digit.
pub open spec fn dec_digit(c: char) -> bool {
    '0' <= c <= '9'
}

/// Whether `c` has the Unicode property White_Space.
pub open spec fn white_space(c: char) -> bool {
    ||| '\u{9}' <= c <= '\u{d}'
    ||| c == ' '
    ||| c == '\u{85}'
    ||| c == '\u{a0}'
    ||| c == '\u{1680}'
    ||| '\u{2000}' <= c <= '\u{200a}'
    ||| c == '\u{2028}'
    ||| c == '\u{2029}'
    ||| c == '\u{202f}'
    ||| c == '\u{205f}'
    ||| c == '\u{3000}'
}

/// Whether `c` belongs to `class`.
pub open spec fn in_class(class: CharClass, c: char) -> bool {
    match class {
        CharClass::Whitespace => white_space(c),
        CharClass::Ident => ident_char(c),
        CharClass::Digit => dec_digit(c) || c == '_',
    }
}

/// Whether the character at `pos` is `c`.
pub open spec fn char_at(s: Seq<char>, pos: int, c: char) -> bool {
    0 <= pos < s.len() && s[pos] == c
}

/// Whether `lit` stands in `s` at `pos`.
pub open spec fn lit_at(s: Seq<char>, pos: int, lit: Seq<char>) -> bool {
    0 <= pos && pos + lit.len() <= s.len() && s.subrange(pos, pos + lit.len()) == lit
}

/// Whether no identifier character stands at `pos` (the end of the input
/// counts).
pub open spec fn word_ends(s: Seq<char>, pos: int) -> bool {
    !(0 <= pos < s.len() && ident_char(s[pos]))
}

/// Whether the word `lit` stands at `pos` and ends there.
pub open spec fn word_at(s: Seq<char>, pos: int, lit: Seq<char>) -> bool {
    lit_at(s, pos, lit) && word_ends(s, pos + lit.len())
}

/// The length of the longest run of characters of `class` from `pos`.
pub open spec fn run_len(s: Seq<char>, pos: int, class: CharClass) -> nat
    decreases s.len() - pos,
{
    if 0 <= pos < s.len() && in_class(class, s[pos]) {
        1 + run_len(s, pos + 1, class)
    } else {
        0
    }
}

/// The length of the white space at `pos`.
pub open spec fn ws_len(s: Seq<char>, pos: int) -> nat {
    run_len(s, pos, CharClass::Whitespace)
}

/// The length of the identifier at `pos`.
pub open spec fn word_len(s: Seq<char>, pos: int) -> nat {
    if 0 <= pos < s.len() && ident_start(s[pos]) {
        1 + run_len(s, pos + 1, CharClass::Ident)
    } else {
        0
    }
}

/// The length of the digits at `pos`: a digit, then digits and `_`.
pub open spec fn dec_len(s: Seq<char>, pos: int) -> nat {
    if 0 <= pos < s.len() && dec_digit(s[pos]) {
        1 + run_len(s, pos + 1, CharClass::Digit)
    } else {
        0
    }
}

/// The length of the boolean literal at `pos`: `true` or `false`, not
/// followed by an identifier character.
pub open spec fn bool_len(s: Seq<char>, pos: int) -> nat {
    if word_at(s, pos, "true"@) {
        4
    } else if word_at(s, pos, "false"@) {
        5
    } else {
        0
    }
}

/// The length of the sign at `pos`, if one stands there.
pub open spec fn sign_len(s: Seq<char>, pos: int) -> nat {
    if char_at(s, pos, '+') || char_at(s, pos, '-') {
        1
    } else {
        0
    }
}

/// The length of the fraction at `pos`: `.` and the digits after it, if any.
pub open spec fn fraction_len(s: Seq<char>, pos: int) -> nat {
    if char_at(s, pos, '.') {
        1 + dec_len(s, pos + 1)
    } else {
        0
    }
}

/// The length of the exponent at `pos`: `e` or `E`, a sign if any, digits.
pub open spec fn exponent_len(s: Seq<char>, pos: int) -> nat {
    if char_at(s, pos, 'e') || char_at(s, pos, 'E') {
        let sign = sign_len(s, pos + 1);
        let digits = dec_len(s, pos + 1 + sign);
        if digits == 0 {
            0
        } else {
            1 + sign + digits
        }
    } else {
        0
    }
}

/// The length of the number at `pos`: a sign if any, digits, a fraction if
/// any, an exponent if any, not followed by an identifier character.
pub open spec fn number_len(s: Seq<char>, pos: int) -> nat {
    let sign = sign_len(s, pos);
    let digits = dec_len(s, pos + sign);
    let fraction = fraction_len(s, pos + sign + digits);
    let exponent = exponent_len(s, pos + sign + digits + fraction);
    let total = sign + digits + fraction + exponent;
    if digits > 0 && word_ends(s, pos + total) {
        total
    } else {
        0
    }
}

/// Where the body of a string quoted by `quote` ends, from `pos`: at the
/// closing quote, at a line end or at the end of the input. A backslash takes
/// the next character with it; one that ends the input gives -1.
pub open spec fn string_body_end(s: Seq<char>, pos: int, quote: char) -> int
    decreases s.len() - pos,
{
    if !(0 <= pos < s.len()) {
        pos
    } else if s[pos] == '\\' {
        if pos + 1 < s.len() {
            string_body_end(s, pos + 2, quote)
        } else {
            -1
        }
    } else if s[pos] == quote || s[pos] == '\n' || s[pos] == '\r' {
        pos
    } else {
        string_body_end(s, pos + 1, quote)
    }
}

/// The length of the string at `pos`: a quote, the body, and the same quote;
/// the closing quote may be missing before a line end (`\n` or `\r\n`) and
/// at the end of the input.
pub open spec fn string_len(s: Seq<char>, pos: int) -> nat {
    if char_at(s, pos, '"') || char_at(s, pos, '\'') {
        let end = string_body_end(s, pos + 1, s[pos]);
        if end < pos + 1 {
            0
        } else if char_at(s, end, s[pos]) {
            (end + 1 - pos) as nat
        } else if end >= s.len() || char_at(s, end, '\n') || lit_at(s, end, "\r\n"@) {
            (end - pos) as nat
        } else {
            0
        }
    } else {
        0
    }
}

/// The length of the binary operator of precedence `level` at `pos`, where
/// level 0 is `or`, 1 is `and`, 2 the comparisons and `in`, 3 is `+ -`,
/// 4 is `* / // %`, and 5 is `**`.
pub open spec fn operator_len(level: nat, s: Seq<char>, pos: int) -> nat {
    if level == 0 {
        if word_at(s, pos, "or"@) { 2 } else { 0 }
    } else if level == 1 {
        if word_at(s, pos, "and"@) { 3 } else { 0 }
    } else if level == 2 {
        if lit_at(s, pos, "=="@) || lit_at(s, pos, "!="@) {
            2
        } else if char_at(s, pos, '>') || char_at(s, pos, '<') {
            if char_at(s, pos + 1, '=') { 2 } else { 1 }
        } else if word_at(s, pos, "in"@) {
            2
        } else {
            0
        }
    } else if level == 3 {
        sign_len(s, pos)
    } else if level == 4 {
        if char_at(s, pos, '*') || char_at(s, pos, '%') {
            1
        } else if char_at(s, pos, '/') {
            if char_at(s, pos + 1, '/') { 2 } else { 1 }
        } else {
            0
        }
    } else if level == 5 {
        if lit_at(s, pos, "**"@) { 2 } else { 0 }
    } else {
        0
    }
}

/// The words that end an operand, so that none of them is read as the
/// argument of a test written without parentheses.
pub open spec fn reserved_at(s: Seq<char>, pos: int) -> bool {
    ||| word_at(s, pos, "and"@)
    ||| word_at(s, pos, "or"@)
    ||| word_at(s, pos, "in"@)
    ||| word_at(s, pos, "is"@)
    ||| word_at(s, pos, "if"@)
    ||| word_at(s, pos, "else"@)
}

/// A run stays inside the input.
pub proof fn lemma_run_len_bound(s: Seq<char>, pos: int, class: CharClass)
    requires
        0 <= pos <= s.len(),
    ensures
        pos + run_len(s, pos, class) <= s.len(),
    decreases s.len() - pos,
{
    if pos < s.len() && in_class(class, s[pos]) {
        lemma_run_len_bound(s, pos + 1, class);
    }
}

/// Whether `c` may continue an identifier.
pub fn is_ident_char(c: char) -> (r: bool)
    ensures
        r == ident_char(c),
{
    ('a' <= c && c <= 'z') || ('A' <= c && c <= 'Z') || ('0' <= c && c <= '9') || c == '_' || c
        > '\x7f'
}

/// Whether `c` may start an identifier.
pub fn is_ident_start(c: char) -> (r: bool)
    ensures
        r == ident_start(c),
{
    ('a' <= c && c <= 'z') || ('A' <= c && c <= 'Z') || c == '_' || c > '\x7f'
}

/// Whether `c` is Unicode white space.
pub fn is_white_space(c: char) -> (r: bool)
    ensures
        r == white_space(c),
{
    ('\u{9}' <= c && c <= '\u{d}') || c == ' ' || c == '\u{85}' || c == '\u{a0}' || c == '\u{1680}'
        || ('\u{2000}' <= c && c <= '\u{200a}') || c == '\u{2028}' || c == '\u{2029}' || c
        == '\u{202f}' || c == '\u{205f}' || c == '\u{3000}'
}

/// Whether `c` belongs to `class`.
pub fn is_in_class(class: CharClass, c: char) -> (r: bool)
    ensures
        r == in_class(class, c),
{
    match class {
        CharClass::Whitespace => is_white_space(c),
        CharClass::Ident => is_ident_char(c),
        CharClass::Digit => ('0' <= c && c <= '9') || c == '_',
    }
}

/// Whether the character at `pos` is `c`.
pub fn has_char(s: &str, len: usize, pos: usize, c: char) -> (r: bool)
    requires
        len == s@.len(),
    ensures
        r == char_at(s@, pos as int, c),
{
    pos < len && s.get_char(pos) == c
}

/// Whether no identifier character stands at `pos`.
pub fn has_word_end(s: &str, len: usize, pos: usize) -> (r: bool)
    requires
        len == s@.len(),
    ensures
        r == word_ends(s@, pos as int),
{
    !(pos < len && is_ident_char(s.get_char(pos)))
}

/// Whether `lit` stands in `s` at `pos`.
pub fn has_lit(s: &str, len: usize, pos: usize, lit: &str) -> (r: bool)
    requires
        len == s@.len(),
        pos <= len,
    ensures
        r == lit_at(s@, pos as int, lit@),
{
    let n = lit.unicode_len();
    if n > len - pos {
        return false;
    }
    let mut i: usize = 0;
    while i < n
        invariant
            len == s@.len(),
            n == lit@.len(),
            pos + n <= len,
            i <= n,
            forall|j: int| 0 <= j < i ==> s@[pos + j] == lit@[j],
        decreases n - i,
    {
        if s.get_char(pos + i) != lit.get_char(i) {
            proof {
                assert(s@.subrange(pos as int, pos + n)[i as int] == s@[pos + i]);
            }
            return false;
        }
        i += 1;
    }
    proof {
        assert(s@.subrange(pos as int, pos + n) =~= lit@);
    }
    true
}

/// Whether the word `lit` stands at `pos` and ends there.
pub fn has_word(s: &str, len: usize, pos: usize, lit: &str) -> (r: bool)
    requires
        len == s@.len(),
        pos <= len,
    ensures
        r == word_at(s@, pos as int, lit@),
{
    if has_lit(s, len, pos, lit) {
        let n = lit.unicode_len();
        has_word_end(s, len, pos + n)
    } else {
        false
    }
}

/// The length of the longest run of characters of `class` from `pos`.
pub fn scan_run(s: &str, len: usize, pos: usize, class: CharClass) -> (n: usize)
    requires
        len == s@.len(),
        pos <= len,
    ensures
        n == run_len(s@, pos as int, class),
        pos + n <= len,
{
    let mut end: usize = pos;
    while end < len && is_in_class(class, s.get_char(end))
        invariant
            len == s@.len(),
            pos <= end <= len,
            run_len(s@, pos as int, class) == (end - pos) + run_len(s@, end as int, class),
        decreases len - end,
    {
        end += 1;
    }
    end - pos
}

/// The length of the white space at `pos`.
pub fn scan_ws(s: &str, len: usize, pos: usize) -> (n: usize)
    requires
        len == s@.len(),
        pos <= len,
    ensures
        n == ws_len(s@, pos as int),
        pos + n <= len,
{
    scan_run(s, len, pos, CharClass::Whitespace)
}

/// The length of the identifier at `pos`.
pub fn scan_word(s: &str, len: usize, pos: usize) -> (n: usize)
    requires
        len == s@.len(),
        pos <= len,
    ensures
        n == word_len(s@, pos as int),
        pos + n <= len,
{
    if pos < len && is_ident_start(s.get_char(pos)) {
        1 + scan_run(s, len, pos + 1, CharClass::Ident)
    } else {
        0
    }
}

/// The length of the digits at `pos`.
pub fn scan_dec(s: &str, len: usize, pos: usize) -> (n: usize)
    requires
        len == s@.len(),
        pos <= len,
    ensures
        n == dec_len(s@, pos as int),
        pos + n <= len,
{
    if pos < len && ('0' <= s.get_char(pos) && s.get_char(pos) <= '9') {
        1 + scan_run(s, len, pos + 1, CharClass::Digit)
    } else {
        0
    }
}

/// The length of the boolean literal at `pos`.
pub fn scan_bool(s: &str, len: usize, pos: usize) -> (n: usize)
    requires
        len == s@.len(),
        pos <= len,
    ensures
        n == bool_len(s@, pos as int),
        pos + n <= len,
{
    proof {
        reveal_strlit("true");
        reveal_strlit("false");
    }
    if has_word(s, len, pos, "true") {
        4
    } else if has_word(s, len, pos, "false") {
        5
    } else {
        0
    }
}

/// The length of the sign at `pos`.
pub fn scan_sign(s: &str, len: usize, pos: usize) -> (n: usize)
    requires
        len == s@.len(),
        pos <= len,
    ensures
        n == sign_len(s@, pos as int),
        pos + n <= len,
{
    if has_char(s, len, pos, '+') || has_char(s, len, pos, '-') {
        1
    } else {
        0
    }
}

/// The length of the number at `pos`.
pub fn scan_number(s: &str, len: usize, pos: usize) -> (n: usize)
    requires
        len == s@.len(),
        pos <= len,
    ensures
        n == number_len(s@, pos as int),
        pos + n <= len,
{
    let sign = scan_sign(s, len, pos);
    let digits = scan_dec(s, len, pos + sign);
    if digits == 0 {
        return 0;
    }
    let mut end = pos + sign + digits;
    if has_char(s, len, end, '.') {
        end = end + 1 + scan_dec(s, len, end + 1);
    }
    if has_char(s, len, end, 'e') || has_char(s, len, end, 'E') {
        let exp_sign = scan_sign(s, len, end + 1);
        let exp_digits = scan_dec(s, len, end + 1 + exp_sign);
        if exp_digits > 0 {
            end = end + 1 + exp_sign + exp_digits;
        }
    }
    if has_word_end(s, len, end) {
        end - pos
    } else {
        0
    }
}

/// Where the body of a string quoted by `quote` ends, from `pos`; `None`
/// where a backslash ends the input.
pub fn scan_string_body(s: &str, len: usize, pos: usize, quote: char) -> (r: Option<usize>)
    requires
        len == s@.len(),
        pos <= len,
    ensures
        match r {
            Some(end) => end == string_body_end(s@, pos as int, quote) && pos <= end <= len,
            None => string_body_end(s@, pos as int, quote) == -1,
        },
{
    let mut end: usize = pos;
    while end < len
        invariant
            len == s@.len(),
            pos <= end <= len,
            string_body_end(s@, pos as int, quote) == string_body_end(s@, end as int, quote),
        decreases len - end,
    {
        let c = s.get_char(end);
        if c == '\\' {
            if end + 1 < len {
                end += 2;
            } else {
                return None;
            }
        } else if c == quote || c == '\n' || c == '\r' {
            return Some(end);
        } else {
            end += 1;
        }
    }
    Some(end)
}

/// The length of the string at `pos`.
pub fn scan_string(s: &str, len: usize, pos: usize) -> (n: usize)
    requires
        len == s@.len(),
        pos <= len,
    ensures
        n == string_len(s@, pos as int),
        pos + n <= len,
{
    if has_char(s, len, pos, '"') || has_char(s, len, pos, '\'') {
        let quote = s.get_char(pos);
        match scan_string_body(s, len, pos + 1, quote) {
            None => 0,
            Some(end) => {
                if has_char(s, len, end, quote) {
                    end + 1 - pos
                } else if end >= len || has_char(s, len, end, '\n') || has_lit(
                    s,
                    len,
                    end,
                    "\r\n",
                ) {
                    end - pos
                } else {
                    0
                }
            },
        }
    } else {
        0
    }
}

/// The length of the binary operator of precedence `level` at `pos`.
pub fn scan_operator(level: u8, s: &str, len: usize, pos: usize) -> (n: usize)
    requires
        len == s@.len(),
        pos <= len,
    ensures
        n == operator_len(level as nat, s@, pos as int),
        pos + n <= len,
{
    proof {
        reveal_strlit("or");
        reveal_strlit("and");
        reveal_strlit("in");
        reveal_strlit("==");
        reveal_strlit("!=");
        reveal_strlit("**");
    }
    if level == 0 {
        if has_word(s, len, pos, "or") { 2 } else { 0 }
    } else if level == 1 {
        if has_word(s, len, pos, "and") { 3 } else { 0 }
    } else if level == 2 {
        if has_lit(s, len, pos, "==") || has_lit(s, len, pos, "!=") {
            2
        } else if has_char(s, len, pos, '>') || has_char(s, len, pos, '<') {
            if has_char(s, len, pos + 1, '=') { 2 } else { 1 }
        } else if has_word(s, len, pos, "in") {
            2
        } else {
            0
        }
    } else if level == 3 {
        scan_sign(s, len, pos)
    } else if level == 4 {
        if has_char(s, len, pos, '*') || has_char(s, len, pos, '%') {
            1
        } else if has_char(s, len, pos, '/') {
            if has_char(s, len, pos + 1, '/') { 2 } else { 1 }
        } else {
            0
        }
    } else if level == 5 {
        if has_lit(s, len, pos, "**") { 2 } else { 0 }
    } else {
        0
    }
}

/// Whether a word that ends an operand stands at `pos`.
pub fn has_reserved(s: &str, len: usize, pos: usize) -> (r: bool)
    requires
        len == s@.len(),
        pos <= len,
    ensures
        r == reserved_at(s@, pos as int),
{
    has_word(s, len, pos, "and") || has_word(s, len, pos, "or") || has_word(s, len, pos, "in")
        || has_word(s, len, pos, "is") || has_word(s, len, pos, "if") || has_word(
        s,
        len,
        pos,
        "else",
    )
}

} // verus!
