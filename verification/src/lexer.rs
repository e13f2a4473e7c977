//! The lexer: one source line in, a token sequence and an indentation depth
//! out. It keeps no state across lines. The spec functions here are the
//! mathematical model of lexing; `get_tokens` is proved to compute exactly
//! that model.

use vstd::prelude::*;
use vstd::string::StrSliceExecFns;

use crate::errors::CompileError;
use crate::text::{chars_of, string_from_chars, str_eq, subvec};
use crate::tokens::{Keyword, Literal, LiteralModel, SpecialCharacter, Token, TokenModel};

verus! {

/// Whether `c` has the Unicode `White_Space` property, the set of
/// characters that `char::is_whitespace` accepts.
pub open spec fn is_ws(c: char) -> bool {
    let u = c as u32;
    u == 0x9 || u == 0xA || u == 0xB || u == 0xC || u == 0xD || u == 0x20 || u == 0x85 || u == 0xA0
        || u == 0x1680 || (0x2000 <= u && u <= 0x200A) || u == 0x2028 || u == 0x2029 || u == 0x202F
        || u == 0x205F || u == 0x3000
}

/// Exec check for `is_ws`.
pub fn is_whitespace_char(c: char) -> (r: bool)
    ensures
        r == is_ws(c),
{
    let u = c as u32;
    u == 0x9 || u == 0xA || u == 0xB || u == 0xC || u == 0xD || u == 0x20 || u == 0x85 || u == 0xA0
        || u == 0x1680 || (0x2000 <= u && u <= 0x200A) || u == 0x2028 || u == 0x2029 || u == 0x202F
        || u == 0x205F || u == 0x3000
}

/// Whether `c` is an ASCII decimal digit.
pub open spec fn is_digit(c: char) -> bool {
    0x30 <= c as u32 && c as u32 <= 0x39
}

fn is_digit_char(c: char) -> (r: bool)
    ensures
        r == is_digit(c),
{
    let u = c as u32;
    0x30 <= u && u <= 0x39
}

/// Whether `c` is an ASCII letter, digit, or underscore: the characters an
/// identifier may consist of.
pub open spec fn is_ident_char(c: char) -> bool {
    let u = c as u32;
    (0x30 <= u && u <= 0x39) || (0x41 <= u && u <= 0x5A) || (0x61 <= u && u <= 0x7A) || u == 0x5F
}

fn is_ident_char_exec(c: char) -> (r: bool)
    ensures
        r == is_ident_char(c),
{
    let u = c as u32;
    (0x30 <= u && u <= 0x39) || (0x41 <= u && u <= 0x5A) || (0x61 <= u && u <= 0x7A) || u == 0x5F
}

/// The special character standing for `c`, if any.
pub open spec fn special_of(c: char) -> Option<SpecialCharacter> {
    if c == '=' {
        Some(SpecialCharacter::Equals)
    } else if c == '!' {
        Some(SpecialCharacter::ExclamationMark)
    } else if c == '.' {
        Some(SpecialCharacter::Dot)
    } else if c == ':' {
        Some(SpecialCharacter::Colon)
    } else if c == ',' {
        Some(SpecialCharacter::Comma)
    } else if c == '+' {
        Some(SpecialCharacter::Plus)
    } else if c == '-' {
        Some(SpecialCharacter::Minus)
    } else if c == '*' {
        Some(SpecialCharacter::Asterisk)
    } else if c == '/' {
        Some(SpecialCharacter::Slash)
    } else if c == '%' {
        Some(SpecialCharacter::Percent)
    } else if c == '>' {
        Some(SpecialCharacter::LargerThan)
    } else if c == '<' {
        Some(SpecialCharacter::SmallerThan)
    } else if c == '(' {
        Some(SpecialCharacter::OpenParenthesis)
    } else if c == ')' {
        Some(SpecialCharacter::CloseParenthesis)
    } else if c == '[' {
        Some(SpecialCharacter::OpenBracket)
    } else if c == ']' {
        Some(SpecialCharacter::CloseBracket)
    } else if c == '{' {
        Some(SpecialCharacter::OpenBrace)
    } else if c == '}' {
        Some(SpecialCharacter::CloseBrace)
    } else {
        None
    }
}

fn get_special_character(c: char) -> (r: Option<SpecialCharacter>)
    ensures
        r == special_of(c),
{
    if c == '=' {
        Some(SpecialCharacter::Equals)
    } else if c == '!' {
        Some(SpecialCharacter::ExclamationMark)
    } else if c == '.' {
        Some(SpecialCharacter::Dot)
    } else if c == ':' {
        Some(SpecialCharacter::Colon)
    } else if c == ',' {
        Some(SpecialCharacter::Comma)
    } else if c == '+' {
        Some(SpecialCharacter::Plus)
    } else if c == '-' {
        Some(SpecialCharacter::Minus)
    } else if c == '*' {
        Some(SpecialCharacter::Asterisk)
    } else if c == '/' {
        Some(SpecialCharacter::Slash)
    } else if c == '%' {
        Some(SpecialCharacter::Percent)
    } else if c == '>' {
        Some(SpecialCharacter::LargerThan)
    } else if c == '<' {
        Some(SpecialCharacter::SmallerThan)
    } else if c == '(' {
        Some(SpecialCharacter::OpenParenthesis)
    } else if c == ')' {
        Some(SpecialCharacter::CloseParenthesis)
    } else if c == '[' {
        Some(SpecialCharacter::OpenBracket)
    } else if c == ']' {
        Some(SpecialCharacter::CloseBracket)
    } else if c == '{' {
        Some(SpecialCharacter::OpenBrace)
    } else if c == '}' {
        Some(SpecialCharacter::CloseBrace)
    } else {
        None
    }
}

fn is_special_character(c: char) -> (r: bool)
    ensures
        r == (special_of(c) is Some),
{
    get_special_character(c).is_some()
}

/// The keyword spelled `w`, if any.
pub open spec fn keyword_of(w: Seq<char>) -> Option<Keyword> {
    if w == "let"@ {
        Some(Keyword::Let)
    } else if w == "const"@ {
        Some(Keyword::Const)
    } else if w == "method"@ {
        Some(Keyword::Method)
    } else if w == "return"@ {
        Some(Keyword::Return)
    } else if w == "import"@ {
        Some(Keyword::Import)
    } else if w == "if"@ {
        Some(Keyword::If)
    } else if w == "else"@ {
        Some(Keyword::Else)
    } else if w == "loop"@ {
        Some(Keyword::Loop)
    } else if w == "in"@ {
        Some(Keyword::In)
    } else if w == "true"@ {
        Some(Keyword::True)
    } else if w == "false"@ {
        Some(Keyword::False)
    } else if w == "null"@ {
        Some(Keyword::Null)
    } else if w == "break"@ {
        Some(Keyword::Break)
    } else if w == "continue"@ {
        Some(Keyword::Continue)
    } else if w == "and"@ {
        Some(Keyword::And)
    } else if w == "or"@ {
        Some(Keyword::Or)
    } else if w == "not"@ {
        Some(Keyword::Not)
    } else {
        None
    }
}

fn get_keyword(w: &str) -> (r: Option<Keyword>)
    ensures
        r == keyword_of(w@),
{
    if str_eq(w, "let") {
        Some(Keyword::Let)
    } else if str_eq(w, "const") {
        Some(Keyword::Const)
    } else if str_eq(w, "method") {
        Some(Keyword::Method)
    } else if str_eq(w, "return") {
        Some(Keyword::Return)
    } else if str_eq(w, "import") {
        Some(Keyword::Import)
    } else if str_eq(w, "if") {
        Some(Keyword::If)
    } else if str_eq(w, "else") {
        Some(Keyword::Else)
    } else if str_eq(w, "loop") {
        Some(Keyword::Loop)
    } else if str_eq(w, "in") {
        Some(Keyword::In)
    } else if str_eq(w, "true") {
        Some(Keyword::True)
    } else if str_eq(w, "false") {
        Some(Keyword::False)
    } else if str_eq(w, "null") {
        Some(Keyword::Null)
    } else if str_eq(w, "break") {
        Some(Keyword::Break)
    } else if str_eq(w, "continue") {
        Some(Keyword::Continue)
    } else if str_eq(w, "and") {
        Some(Keyword::And)
    } else if str_eq(w, "or") {
        Some(Keyword::Or)
    } else if str_eq(w, "not") {
        Some(Keyword::Not)
    } else {
        None
    }
}

/// What a single-character escape in a character literal stands for,
/// if it is one of the validated escapes.
pub open spec fn escape_of(c: char) -> Option<char> {
    if c == 'n' {
        Some('\n')
    } else if c == 't' {
        Some('\t')
    } else if c == 'r' {
        Some('\r')
    } else if c == '\\' {
        Some('\\')
    } else if c == '\'' {
        Some('\'')
    } else if c == '\u{0}' {
        Some('\u{0}')
    } else {
        None
    }
}

fn get_escape_sequence(c: char) -> (r: Option<char>)
    ensures
        r == escape_of(c),
{
    if c == 'n' {
        Some('\n')
    } else if c == 't' {
        Some('\t')
    } else if c == 'r' {
        Some('\r')
    } else if c == '\\' {
        Some('\\')
    } else if c == '\'' {
        Some('\'')
    } else if c == '\u{0}' {
        Some('\u{0}')
    } else {
        None
    }
}

/// All characters of `v` are decimal digits.
pub open spec fn all_digits(v: Seq<char>) -> bool {
    forall|j: int| 0 <= j < v.len() ==> is_digit(#[trigger] v[j])
}

/// `v` with one leading `+` or `-` removed, if present.
pub open spec fn strip_sign(v: Seq<char>) -> Seq<char> {
    if v.len() > 0 && (v[0] == '+' || v[0] == '-') {
        v.skip(1)
    } else {
        v
    }
}

/// Whether `a` equals the lowercase letter `b` up to ASCII case.
pub open spec fn ci_matches(a: char, b: char) -> bool {
    a == b || (0x41 <= a as u32 && a as u32 <= 0x5A && a as u32 + 0x20 == b as u32)
}

/// Whether `v` spells the lowercase word `w` up to ASCII case.
pub open spec fn eq_ci(v: Seq<char>, w: Seq<char>) -> bool {
    v.len() == w.len() && forall|j: int| 0 <= j < v.len() ==> ci_matches(#[trigger] v[j], w[j])
}

/// The position of the first exponent marker `e` or `E` at or after `j`.
pub open spec fn find_exp(v: Seq<char>, j: nat) -> Option<int>
    decreases v.len() - j,
{
    if j >= v.len() {
        None
    } else if v[j as int] == 'e' || v[j as int] == 'E' {
        Some(j as int)
    } else {
        find_exp(v, j + 1)
    }
}

/// The position of the first `.` at or after `j`.
pub open spec fn find_dot(v: Seq<char>, j: nat) -> Option<int>
    decreases v.len() - j,
{
    if j >= v.len() {
        None
    } else if v[j as int] == '.' {
        Some(j as int)
    } else {
        find_dot(v, j + 1)
    }
}

/// A mantissa: digits, or digits with one point and a digit on at least
/// one side of it.
pub open spec fn is_mantissa(m: Seq<char>) -> bool {
    match find_dot(m, 0) {
        None => m.len() > 0 && all_digits(m),
        Some(d) => m.len() > 1 && all_digits(m.take(d)) && all_digits(m.skip(d + 1)),
    }
}

/// An exponent body: an optional sign followed by at least one digit.
pub open spec fn is_exp_part(x: Seq<char>) -> bool {
    strip_sign(x).len() > 0 && all_digits(strip_sign(x))
}

/// A mantissa with an optional exponent.
pub open spec fn is_f64_core(v: Seq<char>) -> bool {
    match find_exp(v, 0) {
        None => is_mantissa(v),
        Some(j) => is_mantissa(v.take(j)) && is_exp_part(v.skip(j + 1)),
    }
}

/// Whether `w` is accepted by the grammar that the standard library
/// documents for parsing a 64-bit float: an optional sign, then `inf`,
/// `infinity` or `nan` (ignoring ASCII case), or a decimal number with an
/// optional fraction and exponent. Acceptance depends only on the
/// spelling: out-of-range values parse to infinities, never to an error.
pub open spec fn is_f64_str(w: Seq<char>) -> bool {
    let v = strip_sign(w);
    eq_ci(v, "inf"@) || eq_ci(v, "infinity"@) || eq_ci(v, "nan"@) || is_f64_core(v)
}

fn ci_match(a: char, b: char) -> (r: bool)
    ensures
        r == ci_matches(a, b),
{
    let ua = a as u32;
    let ub = b as u32;
    ua == ub || (0x41 <= ua && ua <= 0x5A && ua + 0x20 == ub)
}

fn all_digits_exec(v: &Vec<char>, a: usize, b: usize) -> (r: bool)
    requires
        a <= b <= v@.len(),
    ensures
        r == all_digits(v@.subrange(a as int, b as int)),
{
    let ghost w = v@.subrange(a as int, b as int);
    let mut j: usize = a;
    while j < b
        invariant
            a <= j <= b <= v@.len(),
            w == v@.subrange(a as int, b as int),
            forall|j0: int| 0 <= j0 < j - a ==> is_digit(#[trigger] w[j0]),
        decreases b - j,
    {
        if !is_digit_char(v[j]) {
            proof {
                assert(w[j - a] == v@[j as int]);
            }
            return false;
        }
        j = j + 1;
    }
    true
}

/// Whether the word spells a value the standard library would parse as a
/// 64-bit float; such a word is kept as a number literal in its original
/// spelling.
#[verifier::rlimit(50)]
pub fn is_f64_literal(w: &Vec<char>) -> (r: bool)
    ensures
        r == is_f64_str(w@),
{
    let n = w.len();
    let start: usize = if n > 0 && (w[0] == '+' || w[0] == '-') {
        1
    } else {
        0
    };
    let v = subvec(w, start, n);
    proof {
        assert(v@ =~= strip_sign(w@));
    }
    let m = v.len();

    // The spellings of the non-finite values, ignoring ASCII case.
    if m == 3 && ci_match(v[0], 'i') && ci_match(v[1], 'n') && ci_match(v[2], 'f') {
        proof {
            reveal_strlit("inf");
            assert(eq_ci(v@, "inf"@));
        }
        return true;
    }
    if m == 8 && ci_match(v[0], 'i') && ci_match(v[1], 'n') && ci_match(v[2], 'f') && ci_match(
        v[3],
        'i',
    ) && ci_match(v[4], 'n') && ci_match(v[5], 'i') && ci_match(v[6], 't') && ci_match(v[7], 'y') {
        proof {
            reveal_strlit("infinity");
            assert(eq_ci(v@, "infinity"@));
        }
        return true;
    }
    if m == 3 && ci_match(v[0], 'n') && ci_match(v[1], 'a') && ci_match(v[2], 'n') {
        proof {
            reveal_strlit("nan");
            assert(eq_ci(v@, "nan"@));
        }
        return true;
    }
    proof {
        reveal_strlit("inf");
        reveal_strlit("infinity");
        reveal_strlit("nan");
    }

    // Find the exponent marker, if any.
    let mut j: usize = 0;
    let mut epos: usize = m;
    let mut has_e = false;
    while j < m
        invariant
            j <= m,
            m == v@.len(),
            !has_e ==> find_exp(v@, 0) == find_exp(v@, j as nat),
            has_e ==> find_exp(v@, 0) == Some(epos as int) && epos < m,
        decreases m - j,
    {
        if !has_e && (v[j] == 'e' || v[j] == 'E') {
            has_e = true;
            epos = j;
        }
        if has_e {
            j = m;
        } else {
            j = j + 1;
        }
    }
    let mant_end = if has_e {
        epos
    } else {
        m
    };
    proof {
        if !has_e {
            assert(find_exp(v@, 0) is None);
        }
    }

    // Check the exponent body: an optional sign, then at least one digit.
    if has_e {
        let ghost x = v@.skip(epos + 1);
        let es: usize = if epos + 1 < m && (v[epos + 1] == '+' || v[epos + 1] == '-') {
            epos + 2
        } else {
            epos + 1
        };
        proof {
            assert(x.len() == m - epos - 1);
            if x.len() > 0 {
                assert(x[0] == v@[epos + 1]);
            }
            assert(strip_sign(x) =~= v@.subrange(es as int, m as int));
        }
        if es == m {
            proof {
                assert(!is_exp_part(x));
            }
            return false;
        }
        if !all_digits_exec(&v, es, m) {
            proof {
                assert(!is_exp_part(x));
            }
            return false;
        }
        proof {
            assert(is_exp_part(x));
        }
    }

    // Check the mantissa: digits with at most one point, and a digit on
    // at least one side of the point.
    let ghost mant = v@.take(mant_end as int);
    proof {
        if !has_e {
            assert(mant =~= v@);
        }
    }
    let mut k: usize = 0;
    let mut dpos: usize = mant_end;
    let mut has_dot = false;
    while k < mant_end
        invariant
            k <= mant_end <= m,
            m == v@.len(),
            mant == v@.take(mant_end as int),
            !has_dot ==> find_dot(mant, 0) == find_dot(mant, k as nat),
            has_dot ==> find_dot(mant, 0) == Some(dpos as int) && dpos < mant_end,
        decreases mant_end - k,
    {
        proof {
            if k < mant_end {
                assert(mant[k as int] == v@[k as int]);
            }
        }
        if !has_dot && v[k] == '.' {
            has_dot = true;
            dpos = k;
        }
        if has_dot {
            k = mant_end;
        } else {
            k = k + 1;
        }
    }
    if has_dot {
        if mant_end <= 1 {
            return false;
        }
        let digits_ok = if all_digits_exec(&v, 0, dpos) {
            all_digits_exec(&v, dpos + 1, mant_end)
        } else {
            false
        };
        proof {
            assert(mant.take(dpos as int) =~= v@.subrange(0, dpos as int));
            assert(mant.skip(dpos + 1) =~= v@.subrange(dpos + 1, mant_end as int));
        }
        digits_ok
    } else {
        proof {
            assert(find_dot(mant, 0) is None);
            assert(mant =~= v@.subrange(0, mant_end as int));
        }
        if mant_end == 0 {
            return false;
        }
        all_digits_exec(&v, 0, mant_end)
    }
}

/// Whether a character ends the scan of a word: whitespace, a special
/// character, a quote, or the start of a comment.
pub open spec fn is_word_stop(c: char) -> bool {
    is_ws(c) || special_of(c) is Some || c == '\'' || c == '"' || c == '#'
}

/// Where the word that starts at `i` ends, scanning from `j`. A word takes
/// digits, one point between digits, and any character that does not stop
/// it.
pub open spec fn word_end(s: Seq<char>, i: nat, j: nat, seen_dot: bool) -> nat
    decreases s.len() - j,
{
    if j >= s.len() {
        j
    } else {
        let c = s[j as int];
        if is_digit(c) {
            word_end(s, i, j + 1, seen_dot)
        } else if c == '.' && !seen_dot && j > i && is_digit(s[j - 1]) {
            word_end(s, i, j + 1, true)
        } else if is_word_stop(c) {
            j
        } else {
            word_end(s, i, j + 1, seen_dot)
        }
    }
}

pub proof fn lemma_word_end_ge(s: Seq<char>, i: nat, j: nat, seen_dot: bool)
    ensures
        word_end(s, i, j, seen_dot) >= j,
        word_end(s, i, j, seen_dot) <= s.len() || word_end(s, i, j, seen_dot) == j,
    decreases s.len() - j,
{
    if j < s.len() {
        let c = s[j as int];
        if is_digit(c) {
            lemma_word_end_ge(s, i, j + 1, seen_dot);
        } else if c == '.' && !seen_dot && j > i && is_digit(s[j - 1]) {
            lemma_word_end_ge(s, i, j + 1, true);
        } else if is_word_stop(c) {
        } else {
            lemma_word_end_ge(s, i, j + 1, seen_dot);
        }
    }
}

/// Whether `w` is a valid identifier: letters, digits and underscores,
/// not starting with a digit.
pub open spec fn is_ident_str(w: Seq<char>) -> bool {
    w.len() > 0 && !is_digit(w[0]) && forall|j: int|
        0 <= j < w.len() ==> is_ident_char(#[trigger] w[j])
}

/// What a scanned word lexes to: a keyword if it spells one, a number
/// literal if the standard library would parse it as a 64-bit float, an
/// identifier if it is one, and a lexing failure otherwise.
pub open spec fn classify_word(w: Seq<char>) -> Result<TokenModel, CompileError> {
    match keyword_of(w) {
        Some(k) => Ok(TokenModel::Keyword(k)),
        None => if is_f64_str(w) {
            Ok(TokenModel::Literal(LiteralModel::Number(w)))
        } else if is_ident_str(w) {
            Ok(TokenModel::Identifier(w))
        } else {
            Err(CompileError::UnexpectedToken)
        },
    }
}

/// Scans the body of a double-quoted literal from `j`. A backslash makes
/// the following character literal; the first unescaped quote ends the
/// body; a line that ends inside the body is a lexing failure. Returns the
/// body and the position after the closing quote.
pub open spec fn scan_str_lit(s: Seq<char>, j: nat, acc: Seq<char>, escaped: bool) -> Result<
    (Seq<char>, nat),
    CompileError,
>
    decreases s.len() - j,
{
    if j >= s.len() {
        Err(CompileError::UnterminatedStringLiteral)
    } else {
        let c = s[j as int];
        if escaped {
            scan_str_lit(s, j + 1, acc.push(c), false)
        } else if c == '\\' {
            scan_str_lit(s, j + 1, acc, true)
        } else if c == '"' {
            Ok((acc, (j + 1) as nat))
        } else {
            scan_str_lit(s, j + 1, acc.push(c), false)
        }
    }
}

pub proof fn lemma_scan_str_lit_range(s: Seq<char>, j: nat, acc: Seq<char>, escaped: bool)
    ensures
        scan_str_lit(s, j, acc, escaped) matches Ok(r) ==> j < r.1 <= s.len(),
    decreases s.len() - j,
{
    if j < s.len() {
        let c = s[j as int];
        if escaped {
            lemma_scan_str_lit_range(s, j + 1, acc.push(c), false);
        } else if c == '\\' {
            lemma_scan_str_lit_range(s, j + 1, acc, true);
        } else if c == '"' {
        } else {
            lemma_scan_str_lit_range(s, j + 1, acc.push(c), false);
        }
    }
}

/// Lexes the single-quoted literal that starts at `i` (where `s[i]` is the
/// opening quote): exactly one character, or a two-character escape
/// sequence, then the closing quote. Returns the token and the position
/// after the closing quote.
pub open spec fn char_lit_at(s: Seq<char>, i: nat) -> Result<(TokenModel, nat), CompileError> {
    if i + 1 >= s.len() {
        Err(CompileError::UnterminatedCharacterLiteral)
    } else if s[i + 1 as int] == '\\' {
        if i + 2 >= s.len() {
            Err(CompileError::UnterminatedCharacterLiteral)
        } else {
            match escape_of(s[i + 2 as int]) {
                None => Err(CompileError::InvalidEscapeSequence),
                Some(e) => if i + 3 < s.len() && s[i + 3 as int] == '\'' {
                    Ok((TokenModel::Literal(LiteralModel::Character(seq![e])), (i + 4) as nat))
                } else {
                    Err(CompileError::UnterminatedCharacterLiteral)
                },
            }
        }
    } else {
        if i + 2 < s.len() && s[i + 2 as int] == '\'' {
            Ok((TokenModel::Literal(LiteralModel::Character(seq![s[i + 1 as int]])), (i + 3) as nat))
        } else {
            Err(CompileError::UnterminatedCharacterLiteral)
        }
    }
}

/// Puts one token in front of the outcome of lexing the rest of the line.
pub open spec fn lex_cons(t: TokenModel, r: Result<Seq<TokenModel>, CompileError>) -> Result<
    Seq<TokenModel>,
    CompileError,
> {
    match r {
        Ok(ts) => Ok(seq![t] + ts),
        Err(e) => Err(e),
    }
}

/// The tokens of the line `s` from position `i` on: whitespace is skipped,
/// `#` discards the rest of the line, quotes open literals, table
/// characters become special-character tokens, and any other run of
/// characters is scanned as a word and classified. The first failure is
/// the line's failure.
pub open spec fn lex_from(s: Seq<char>, i: nat) -> Result<Seq<TokenModel>, CompileError>
    decreases s.len() - i,
        via lex_from_decreases
{
    if i >= s.len() {
        Ok(Seq::empty())
    } else {
        let c = s[i as int];
        if is_ws(c) {
            lex_from(s, i + 1)
        } else if c == '#' {
            Ok(Seq::empty())
        } else if c == '\'' {
            match char_lit_at(s, i) {
                Err(e) => Err(e),
                Ok((t, ni)) => lex_cons(t, lex_from(s, ni)),
            }
        } else if c == '"' {
            match scan_str_lit(s, i + 1, Seq::empty(), false) {
                Err(e) => Err(e),
                Ok((content, ni)) => lex_cons(
                    TokenModel::Literal(LiteralModel::Str(content)),
                    lex_from(s, ni),
                ),
            }
        } else {
            match special_of(c) {
                Some(sc) => lex_cons(TokenModel::SpecialCharacter(sc), lex_from(s, i + 1)),
                None => {
                    let j = word_end(s, i, i, false);
                    match classify_word(s.subrange(i as int, j as int)) {
                        Err(e) => Err(e),
                        Ok(t) => lex_cons(t, lex_from(s, j)),
                    }
                },
            }
        }
    }
}

#[via_fn]
proof fn lex_from_decreases(s: Seq<char>, i: nat) {
    if i < s.len() {
        let c = s[i as int];
        if is_ws(c) || c == '#' || c == '\'' {
        } else if c == '"' {
            lemma_scan_str_lit_range(s, i + 1, Seq::empty(), false);
        } else if special_of(c) is None {
            lemma_word_end_ge(s, i, i + 1, false);
            assert(word_end(s, i, i, false) >= i + 1);
        }
    }
}

/// The number of indentation columns at the start of the line: four for a
/// tab, one for a space, stopping at the first other character.
pub open spec fn indent_cols(s: Seq<char>, i: nat) -> int
    decreases s.len() - i,
{
    if i >= s.len() {
        0
    } else if s[i as int] == '\t' {
        4 + indent_cols(s, i + 1)
    } else if s[i as int] == ' ' {
        1 + indent_cols(s, i + 1)
    } else {
        0
    }
}

/// The indentation depth of the line: its leading columns divided by
/// four, a tab counting as one full unit.
pub open spec fn lex_depth(s: Seq<char>) -> int {
    indent_cols(s, 0) / 4
}

/// Puts the tokens already produced in front of the outcome of lexing the
/// rest of the line.
pub open spec fn lex_cons_all(pre: Seq<TokenModel>, r: Result<Seq<TokenModel>, CompileError>) -> Result<
    Seq<TokenModel>,
    CompileError,
> {
    match r {
        Ok(ts) => Ok(pre + ts),
        Err(e) => Err(e),
    }
}

proof fn lemma_cons_all_empty(r: Result<Seq<TokenModel>, CompileError>)
    ensures
        lex_cons_all(Seq::empty(), r) == r,
{
    match r {
        Ok(ts) => {
            assert(Seq::empty() + ts =~= ts);
        },
        Err(_) => {},
    }
}

proof fn lemma_cons_all_push(
    pre: Seq<TokenModel>,
    t: TokenModel,
    r: Result<Seq<TokenModel>, CompileError>,
)
    ensures
        lex_cons_all(pre, lex_cons(t, r)) == lex_cons_all(pre.push(t), r),
{
    match r {
        Ok(ts) => {
            assert(pre + (seq![t] + ts) =~= pre.push(t) + ts);
        },
        Err(_) => {},
    }
}

fn scan_string_body(v: &Vec<char>, start: usize) -> (r: Result<(Vec<char>, usize), CompileError>)
    requires
        start <= v@.len(),
    ensures
        match r {
            Ok(p) => scan_str_lit(v@, start as nat, Seq::empty(), false) == Ok::<
                (Seq<char>, nat),
                CompileError,
            >((p.0@, p.1 as nat)) && start < p.1 <= v@.len(),
            Err(e) => scan_str_lit(v@, start as nat, Seq::empty(), false) == Err::<
                (Seq<char>, nat),
                CompileError,
            >(e),
        },
{
    let n = v.len();
    let mut acc: Vec<char> = Vec::new();
    let mut j = start;
    let mut escaped = false;
    loop
        invariant
            start <= j <= n,
            n == v@.len(),
            scan_str_lit(v@, start as nat, Seq::empty(), false) == scan_str_lit(
                v@,
                j as nat,
                acc@,
                escaped,
            ),
        decreases n - j,
    {
        if j == n {
            return Err(CompileError::UnterminatedStringLiteral);
        }
        let cj = v[j];
        if escaped {
            acc.push(cj);
            escaped = false;
        } else if cj == '\\' {
            escaped = true;
        } else if cj == '"' {
            return Ok((acc, j + 1));
        } else {
            acc.push(cj);
        }
        j = j + 1;
    }
}

fn scan_word_end(v: &Vec<char>, i: usize) -> (j: usize)
    requires
        i < v@.len(),
    ensures
        j == word_end(v@, i as nat, i as nat, false),
        i <= j <= v@.len(),
{
    let n = v.len();
    let mut j = i;
    let mut seen_dot = false;
    loop
        invariant
            i <= j <= n,
            n == v@.len(),
            word_end(v@, i as nat, i as nat, false) == word_end(v@, i as nat, j as nat, seen_dot),
        decreases n - j,
    {
        if j == n {
            return j;
        }
        let c = v[j];
        if is_digit_char(c) {
            j = j + 1;
        } else if c == '.' && !seen_dot && j > i && is_digit_char(v[j - 1]) {
            seen_dot = true;
            j = j + 1;
        } else if is_whitespace_char(c) || is_special_character(c) || c == '\'' || c == '"' || c
            == '#' {
            return j;
        } else {
            j = j + 1;
        }
    }
}

fn is_ident_vec(w: &Vec<char>) -> (r: bool)
    ensures
        r == is_ident_str(w@),
{
    let n = w.len();
    if n == 0 {
        return false;
    }
    if is_digit_char(w[0]) {
        return false;
    }
    let mut j: usize = 0;
    while j < n
        invariant
            j <= n,
            n == w@.len(),
            forall|j0: int| 0 <= j0 < j ==> is_ident_char(#[trigger] w@[j0]),
        decreases n - j,
    {
        if !is_ident_char_exec(w[j]) {
            return false;
        }
        j = j + 1;
    }
    true
}

/// Turns one source line into its tokens and its indentation depth.
/// Tabs count four columns and spaces one; the depth is the leading
/// columns divided by four. The lexer keeps no state across lines: a
/// failure names exactly what the line's characters force.
pub fn get_tokens(line: &str) -> (res: Result<(Vec<Token>, usize), CompileError>)
    ensures
        match res {
            Ok(r) => lex_from(line@, 0) == Ok::<Seq<TokenModel>, CompileError>(r.0.deep_view())
                && r.1 == lex_depth(line@),
            Err(e) => lex_from(line@, 0) == Err::<Seq<TokenModel>, CompileError>(e),
        },
{
    let v = chars_of(line);
    let ghost s = line@;
    let n = v.len();

    // Count the leading indentation.
    let mut i: usize = 0;
    let mut tabs: usize = 0;
    let mut sp: usize = 0;
    while i < n && (v[i] == '\t' || v[i] == ' ')
        invariant
            i <= n,
            n == s.len(),
            v@ == s,
            tabs + sp == i,
            indent_cols(s, 0) == 4 * tabs + sp + indent_cols(s, i as nat),
            lex_from(s, 0) == lex_from(s, i as nat),
        decreases n - i,
    {
        proof {
            assert(is_ws(s[i as int]));
        }
        if v[i] == '\t' {
            tabs = tabs + 1;
        } else {
            sp = sp + 1;
        }
        i = i + 1;
    }
    proof {
        assert(indent_cols(s, i as nat) == 0);
        assert(indent_cols(s, 0) == 4 * tabs + sp);
        assert((4 * tabs + sp) / 4 == tabs + sp / 4) by (nonlinear_arith)
            requires
                tabs >= 0,
                sp >= 0,
        ;
    }
    let depth: usize = tabs + sp / 4;

    // Lex the tokens.
    let mut toks: Vec<Token> = Vec::new();
    proof {
        lemma_cons_all_empty(lex_from(s, i as nat));
        assert(toks.deep_view() =~= Seq::<TokenModel>::empty());
    }
    while i < n
        invariant
            i <= n,
            n == s.len(),
            v@ == s,
            depth == lex_depth(s),
            lex_from(s, 0) == lex_cons_all(toks.deep_view(), lex_from(s, i as nat)),
        decreases n - i,
    {
        let ghost pre = toks.deep_view();
        let c = v[i];
        if is_whitespace_char(c) {
            i = i + 1;
        } else if c == '#' {
            proof {
                assert(lex_from(s, i as nat) == Ok::<Seq<TokenModel>, CompileError>(Seq::empty()));
                assert(pre + Seq::<TokenModel>::empty() =~= pre);
            }
            return Ok((toks, depth));
        } else if c == '\'' {
            // A character literal: one character or one escape, then the
            // closing quote.
            if n - i <= 1 {
                return Err(CompileError::UnterminatedCharacterLiteral);
            }
            let c1 = v[i + 1];
            if c1 == '\\' {
                if n - i <= 2 {
                    return Err(CompileError::UnterminatedCharacterLiteral);
                }
                match get_escape_sequence(v[i + 2]) {
                    None => {
                        return Err(CompileError::InvalidEscapeSequence);
                    },
                    Some(e) => {
                        if n - i <= 3 {
                            return Err(CompileError::UnterminatedCharacterLiteral);
                        }
                        if v[i + 3] != '\'' {
                            return Err(CompileError::UnterminatedCharacterLiteral);
                        }
                        let tok = Token::Literal(Literal::Character(crate::text::char_string(e)));
                        proof {
                            lemma_cons_all_push(pre, tok@, lex_from(s, (i + 4) as nat));
                        }
                        toks.push(tok);
                        proof {
                            assert(toks.deep_view() =~= pre.push(tok@));
                        }
                        i = i + 4;
                    },
                }
            } else {
                if n - i <= 2 {
                    return Err(CompileError::UnterminatedCharacterLiteral);
                }
                if v[i + 2] != '\'' {
                    return Err(CompileError::UnterminatedCharacterLiteral);
                }
                let tok = Token::Literal(Literal::Character(crate::text::char_string(c1)));
                proof {
                    lemma_cons_all_push(pre, tok@, lex_from(s, (i + 3) as nat));
                }
                toks.push(tok);
                proof {
                    assert(toks.deep_view() =~= pre.push(tok@));
                }
                i = i + 3;
            }
        } else if c == '"' {
            match scan_string_body(&v, i + 1) {
                Err(e) => {
                    return Err(e);
                },
                Ok((content, ni)) => {
                    let tok = Token::Literal(
                        Literal::Str(string_from_chars(content.as_slice())),
                    );
                    proof {
                        lemma_cons_all_push(pre, tok@, lex_from(s, ni as nat));
                    }
                    toks.push(tok);
                    proof {
                        assert(toks.deep_view() =~= pre.push(tok@));
                    }
                    i = ni;
                },
            }
        } else {
            match get_special_character(c) {
                Some(sc) => {
                    let tok = Token::SpecialCharacter(sc);
                    proof {
                        lemma_cons_all_push(pre, tok@, lex_from(s, (i + 1) as nat));
                    }
                    toks.push(tok);
                    proof {
                        assert(toks.deep_view() =~= pre.push(tok@));
                    }
                    i = i + 1;
                },
                None => {
                    // A word: scan it, then classify it.
                    let j = scan_word_end(&v, i);
                    proof {
                        lemma_word_end_ge(s, i as nat, (i + 1) as nat, false);
                        assert(word_end(s, i as nat, i as nat, false) >= i + 1);
                    }
                    let w = subvec(&v, i, j);
                    let ws = string_from_chars(w.as_slice());
                    match get_keyword(ws.as_str()) {
                        Some(k) => {
                            let tok = Token::Keyword(k);
                            proof {
                                lemma_cons_all_push(pre, tok@, lex_from(s, j as nat));
                            }
                            toks.push(tok);
                            proof {
                                assert(toks.deep_view() =~= pre.push(tok@));
                            }
                            i = j;
                        },
                        None => {
                            if is_f64_literal(&w) {
                                let tok = Token::Literal(Literal::Number(ws));
                                proof {
                                    lemma_cons_all_push(pre, tok@, lex_from(s, j as nat));
                                }
                                toks.push(tok);
                                proof {
                                    assert(toks.deep_view() =~= pre.push(tok@));
                                }
                                i = j;
                            } else if is_ident_vec(&w) {
                                let tok = Token::Identifier(ws);
                                proof {
                                    lemma_cons_all_push(pre, tok@, lex_from(s, j as nat));
                                }
                                toks.push(tok);
                                proof {
                                    assert(toks.deep_view() =~= pre.push(tok@));
                                }
                                i = j;
                            } else {
                                return Err(CompileError::UnexpectedToken);
                            }
                        },
                    }
                },
            }
        }
    }
    proof {
        assert(lex_from(s, i as nat) == Ok::<Seq<TokenModel>, CompileError>(Seq::empty()));
        assert(toks.deep_view() + Seq::<TokenModel>::empty() =~= toks.deep_view());
    }
    Ok((toks, depth))
}

} // verus!
