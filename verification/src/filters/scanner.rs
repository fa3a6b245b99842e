//! The scanner of the filter language: from characters to tokens.

use crate::text::{byte_offset, chars_of, lemma_byte_offset, string_of, width_of};
use vstd::prelude::*;
use vstd::std_specs::convert::FromSpecImpl;
use vstd::string::StringExecFns;

verus! {

/// The kinds of token that make up a filter.
#[derive(Clone, Copy, Debug, PartialEq, Eq, Structural)]
pub enum Token {
    /// The end of the input.
    EOF,
    /// A segment between two quote characters.
    Quoted,
    /// An unquoted value, after an operator.
    Value,
    /// A run of letters, digits and underscores.
    Field,
    /// A dot or a comma.
    Separator,
    /// A run of the characters that operators are made of.
    Operator,
    /// Anything that is none of the others.
    Illegal,
}

impl Token {
    /// The number of each kind of token, in the order of declaration.
    pub open spec fn code(self) -> u8 {
        match self {
            Token::EOF => 0,
            Token::Quoted => 1,
            Token::Value => 2,
            Token::Field => 3,
            Token::Separator => 4,
            Token::Operator => 5,
            Token::Illegal => 6,
        }
    }

    /// The token with the given number: `Illegal` for a number that is not
    /// the number of another token.
    pub open spec fn of_code(code: int) -> Token {
        if code == 0 {
            Token::EOF
        } else if code == 1 {
            Token::Quoted
        } else if code == 2 {
            Token::Value
        } else if code == 3 {
            Token::Field
        } else if code == 4 {
            Token::Separator
        } else if code == 5 {
            Token::Operator
        } else {
            Token::Illegal
        }
    }

    /// The name of each kind of token.
    pub open spec fn name(self) -> Seq<char> {
        match self {
            Token::EOF => "EOF"@,
            Token::Quoted => "Quoted"@,
            Token::Value => "Value"@,
            Token::Field => "Field"@,
            Token::Separator => "Separator"@,
            Token::Operator => "Operator"@,
            Token::Illegal => "Illegal"@,
        }
    }

    /// Returns the name of the kind of token.
    pub fn as_str(self) -> (s: &'static str)
        ensures
            s@ == self.name(),
    {
        match self {
            Token::EOF => "EOF",
            Token::Quoted => "Quoted",
            Token::Value => "Value",
            Token::Field => "Field",
            Token::Separator => "Separator",
            Token::Operator => "Operator",
            Token::Illegal => "Illegal",
        }
    }

    /// Returns the name of the kind of token behind the word `token`.
    pub fn to_string(self) -> (s: String)
        ensures
            s@ == "token"@ + self.name(),
    {
        "token".to_owned().concat(self.as_str())
    }

    /// Returns the character that stands for the token: the one whose code
    /// point is the token's number.
    pub fn to_char(self) -> (c: char)
        ensures
            c as int == self.code(),
    {
        match self {
            Token::EOF => '\u{0}',
            Token::Quoted => '\u{1}',
            Token::Value => '\u{2}',
            Token::Field => '\u{3}',
            Token::Separator => '\u{4}',
            Token::Operator => '\u{5}',
            Token::Illegal => '\u{6}',
        }
    }
}

impl From<u8> for Token {
    fn from(item: u8) -> (t: Token) {
        match item {
            0 => Token::EOF,
            1 => Token::Quoted,
            2 => Token::Value,
            3 => Token::Field,
            4 => Token::Separator,
            5 => Token::Operator,
            _ => Token::Illegal,
        }
    }
}

impl FromSpecImpl<u8> for Token {
    open spec fn obeys_from_spec() -> bool {
        true
    }

    open spec fn from_spec(item: u8) -> Token {
        Token::of_code(item as int)
    }
}

impl From<char> for Token {
    fn from(item: char) -> (t: Token) {
        match item {
            '\u{0}' => Token::EOF,
            '\u{1}' => Token::Quoted,
            '\u{2}' => Token::Value,
            '\u{3}' => Token::Field,
            '\u{4}' => Token::Separator,
            '\u{5}' => Token::Operator,
            _ => Token::Illegal,
        }
    }
}

impl FromSpecImpl<char> for Token {
    open spec fn obeys_from_spec() -> bool {
        true
    }

    open spec fn from_spec(item: char) -> Token {
        Token::of_code(item as int)
    }
}

impl From<Token> for char {
    fn from(item: Token) -> (c: char) {
        item.to_char()
    }
}

impl FromSpecImpl<Token> for char {
    open spec fn obeys_from_spec() -> bool {
        true
    }

    open spec fn from_spec(item: Token) -> char {
        item.code() as char
    }
}

/// The converse of [`Token::to_char`] and [`Token::code`]: each token is
/// found again from its character and from its number.
pub proof fn lemma_token_code_round_trip(t: Token)
    ensures
        Token::of_code(t.code() as int) == t,
{
}

/// Whether `c` is white space: a character with the Unicode property
/// `White_Space`.
pub open spec fn is_space(c: char) -> bool {
    let n = c as int;
    ||| 0x09 <= n <= 0x0d
    ||| n == 0x20
    ||| n == 0x85
    ||| n == 0xa0
    ||| n == 0x1680
    ||| 0x2000 <= n <= 0x200a
    ||| n == 0x2028
    ||| n == 0x2029
    ||| n == 0x202f
    ||| n == 0x205f
    ||| n == 0x3000
}

/// Whether `c` is an ASCII letter.
pub open spec fn is_alpha_char(c: char) -> bool {
    ('A' <= c && c <= 'Z') || ('a' <= c && c <= 'z')
}

/// Whether `c` is an ASCII digit.
pub open spec fn is_digit_char(c: char) -> bool {
    '0' <= c && c <= '9'
}

/// Whether `c` may stand in a field: a letter, a digit or an underscore.
pub open spec fn is_field_char(c: char) -> bool {
    c == '_' || is_alpha_char(c) || is_digit_char(c)
}

/// Whether `c` is one of the characters that operators are made of.
pub open spec fn is_operator_char(c: char) -> bool {
    c == '=' || c == '!' || c == '~'
}

/// Whether `c` opens a quoted segment.
pub open spec fn is_quote_char(c: char) -> bool {
    c == '/' || c == '|' || c == '"'
}

/// Whether `c` separates fields or selectors.
pub open spec fn is_separator_char(c: char) -> bool {
    c == ',' || c == '.'
}

/// Whether `c` may stand in an unquoted value: anything but a comma and
/// white space.
pub open spec fn is_value_char(c: char) -> bool {
    c != ',' && !is_space(c)
}

/// The value of `c` as a digit in base 16 or below: 16 for a character that
/// is no digit.
pub open spec fn digit_value(c: char) -> int {
    if '0' <= c && c <= '9' {
        c as int - '0' as int
    } else if 'a' <= c && c <= 'f' {
        c as int - 'a' as int + 10
    } else if 'A' <= c && c <= 'F' {
        c as int - 'A' as int + 10
    } else {
        16
    }
}

/// Whether `ch` is white space.
pub fn is_space_token(ch: char) -> (r: bool)
    ensures
        r == is_space(ch),
{
    let n = ch as u32;
    (0x09 <= n && n <= 0x0d) || n == 0x20 || n == 0x85 || n == 0xa0 || n == 0x1680 || (0x2000 <= n
        && n <= 0x200a) || n == 0x2028 || n == 0x2029 || n == 0x202f || n == 0x205f || n == 0x3000
}

/// The value of `ch` as a digit in base 16 or below: 16 for a character
/// that is no digit.
pub fn digit_val(ch: char) -> (v: u64)
    ensures
        v == digit_value(ch),
        v <= 16,
{
    if '0' <= ch && ch <= '9' {
        ch as u64 - '0' as u64
    } else if 'a' <= ch && ch <= 'f' {
        ch as u64 - 'a' as u64 + 10
    } else if 'A' <= ch && ch <= 'F' {
        ch as u64 - 'A' as u64 + 10
    } else {
        16  // larger than any legal digit value
    }
}

/// Whether `ch` may stand in a field.
pub fn is_field_token(ch: char) -> (r: bool)
    ensures
        r == is_field_char(ch),
{
    ch == '_' || is_alpha_token(ch) || is_digit_token(ch)
}

/// Whether `ch` is an ASCII letter.
pub fn is_alpha_token(ch: char) -> (r: bool)
    ensures
        r == is_alpha_char(ch),
{
    ch >= 'A' && ch <= 'Z' || ch >= 'a' && ch <= 'z'
}

/// Whether `ch` is an ASCII digit.
pub fn is_digit_token(ch: char) -> (r: bool)
    ensures
        r == is_digit_char(ch),
{
    ch >= '0' && ch <= '9'
}

/// Whether `ch` is one of the characters that operators are made of.
pub fn is_operator_token(ch: char) -> (r: bool)
    ensures
        r == is_operator_char(ch),
{
    match ch {
        '=' | '!' | '~' => true,
        _ => false,
    }
}

/// Whether `ch` opens a quoted segment.
pub fn is_quote_token(ch: char) -> (r: bool)
    ensures
        r == is_quote_char(ch),
{
    match ch {
        '/' | '|' | '"' => true,
        _ => false,
    }
}

/// Whether `ch` separates fields or selectors.
pub fn is_separator_token(ch: char) -> (r: bool)
    ensures
        r == is_separator_char(ch),
{
    match ch {
        ',' | '.' => true,
        _ => false,
    }
}

/// Whether `ch` may stand in an unquoted value.
pub fn is_value_token(ch: char) -> (r: bool)
    ensures
        r == is_value_char(ch),
{
    ch != ',' && !is_space_token(ch)
}

/// What can be wrong with a quoted segment.
#[derive(Clone, Copy, Debug, PartialEq, Eq, Structural)]
pub enum ScanError {
    /// A line end or the end of the input came before the closing quote.
    Unterminated,
    /// A backslash is followed by a character that no escape begins with.
    IllegalEscape,
    /// A numeric escape has too few digits.
    IllegalNumericEscape,
}

impl ScanError {
    /// The diagnostic for each error.
    pub open spec fn text(self) -> Seq<char> {
        match self {
            ScanError::Unterminated => "quoted literal not terminated"@,
            ScanError::IllegalEscape => "illegal escape sequence"@,
            ScanError::IllegalNumericEscape => "illegal numeric escape sequence"@,
        }
    }

    /// Returns the diagnostic for the error.
    pub fn as_str(self) -> (s: &'static str)
        ensures
            s@ == self.text(),
    {
        match self {
            ScanError::Unterminated => "quoted literal not terminated",
            ScanError::IllegalEscape => "illegal escape sequence",
            ScanError::IllegalNumericEscape => "illegal numeric escape sequence",
        }
    }
}

/// The error that is recorded after `a` was recorded and `b` was found:
/// the later one of the two.
pub open spec fn last_error(a: Option<ScanError>, b: Option<ScanError>) -> Option<ScanError> {
    if b is Some {
        b
    } else {
        a
    }
}

/// The character of `s` at `i`, and the NUL character past the end.
pub open spec fn char_at(s: Seq<char>, i: int) -> char {
    if 0 <= i < s.len() {
        s[i]
    } else {
        '\0'
    }
}

/// The position after `i`, which stays where it is at the end of `s`.
pub open spec fn advance(s: Seq<char>, i: int) -> int {
    if i < s.len() {
        i + 1
    } else {
        i
    }
}

/// White space, as a predicate.
pub open spec fn spaces() -> spec_fn(char) -> bool {
    |c: char| is_space(c)
}

/// The characters of fields, as a predicate.
pub open spec fn field_chars() -> spec_fn(char) -> bool {
    |c: char| is_field_char(c)
}

/// The characters of operators, as a predicate.
pub open spec fn operator_chars() -> spec_fn(char) -> bool {
    |c: char| is_operator_char(c)
}

/// The characters of unquoted values, as a predicate.
pub open spec fn value_chars() -> spec_fn(char) -> bool {
    |c: char| is_value_char(c)
}

/// The end of the longest run of characters that meet `pred`, from `i` on.
pub open spec fn run_end(s: Seq<char>, i: int, pred: spec_fn(char) -> bool) -> int
    decreases s.len() - i,
{
    if 0 <= i < s.len() && pred(s[i]) {
        run_end(s, i + 1, pred)
    } else {
        i
    }
}

/// What makes [`run_end`] the end of the longest run: every character up to
/// it meets `pred`, and the one at it, if there is one, does not.
pub proof fn lemma_run_end(s: Seq<char>, i: int, pred: spec_fn(char) -> bool)
    requires
        0 <= i <= s.len(),
    ensures
        i <= run_end(s, i, pred) <= s.len(),
        forall|k: int| i <= k < run_end(s, i, pred) ==> pred(#[trigger] s[k]),
        run_end(s, i, pred) < s.len() ==> !pred(s[run_end(s, i, pred)]),
    decreases s.len() - i,
{
    if i < s.len() && pred(s[i]) {
        lemma_run_end(s, i + 1, pred);
    }
}

/// Where reading digits has come to.
pub struct Digits {
    /// The position of the next character to read.
    pub pos: int,
    /// The character read last: the one at which reading stopped.
    pub ch: char,
    /// How many digits are still missing.
    pub missing: nat,
}

/// Where reading up to `n` digits of the given base ends. `ch` is the
/// character read last; as long as it is a digit and digits are missing,
/// the next character is read, from `pos` on. Past the end of the input
/// what is read is the NUL character, and the position stays.
pub open spec fn digits_from(s: Seq<char>, pos: int, ch: char, base: int, n: nat) -> Digits
    decreases n,
{
    if n > 0 && digit_value(ch) < base {
        digits_from(s, advance(s, pos), char_at(s, pos), base, (n - 1) as nat)
    } else {
        Digits { pos, ch, missing: n }
    }
}

/// Reading digits moves forward, and not past the end; where it does not
/// move, the character read last is the one given or the NUL character.
pub proof fn lemma_digits_from(s: Seq<char>, pos: int, ch: char, base: int, n: nat)
    requires
        0 <= pos <= s.len(),
    ensures
        pos <= digits_from(s, pos, ch, base, n).pos <= s.len(),
        digits_from(s, pos, ch, base, n).missing <= n,
        digits_from(s, pos, ch, base, n).pos == pos ==> digits_from(s, pos, ch, base, n).ch == ch
            || digits_from(s, pos, ch, base, n).ch == '\0',
    decreases n,
{
    if n > 0 && digit_value(ch) < base {
        lemma_digits_from(s, advance(s, pos), char_at(s, pos), base, (n - 1) as nat);
    }
}

/// Whether a backslash and `c` make an escape of two characters.
pub open spec fn is_simple_escape(c: char, quote: char) -> bool {
    c == 'a' || c == 'b' || c == 'f' || c == 'n' || c == 'r' || c == 't' || c == 'v' || c == '\\'
        || c == quote
}

/// Where reading an escape has come to.
pub struct Escape {
    /// The position of the next character to read.
    pub pos: int,
    /// The character read last: the one after the escape, or the one at
    /// which the escape went wrong.
    pub ch: char,
    /// What is wrong with the escape, if anything.
    pub error: Option<ScanError>,
}

/// The outcome of a numeric escape that needs `n` digits of the given
/// base, of which `ch`, read last, is to be the first.
pub open spec fn numeric_escape(s: Seq<char>, pos: int, ch: char, base: int, n: nat) -> Escape {
    let digits = digits_from(s, pos, ch, base, n);
    Escape {
        pos: digits.pos,
        ch: digits.ch,
        error: if digits.missing > 0 {
            Some(ScanError::IllegalNumericEscape)
        } else {
            None
        },
    }
}

/// The outcome of the escape whose backslash was read last, with `pos`
/// being the position of the character after it.
///
/// The character after the backslash is read. If it makes an escape of
/// two characters, one more character is read. If it is an octal digit, it
/// is the first of three. After `x`, `u` and `U` the next character is
/// read as the first of two, four and eight hex digits. Any other
/// character is an escape that is none, and stays the character read
/// last.
pub open spec fn escape_from(s: Seq<char>, pos: int, quote: char) -> Escape {
    let c = char_at(s, pos);
    let next = advance(s, pos);
    if is_simple_escape(c, quote) {
        Escape { pos: advance(s, next), ch: char_at(s, next), error: None }
    } else if '0' <= c && c <= '7' {
        numeric_escape(s, next, c, 8, 3)
    } else if c == 'x' {
        numeric_escape(s, advance(s, next), char_at(s, next), 16, 2)
    } else if c == 'u' {
        numeric_escape(s, advance(s, next), char_at(s, next), 16, 4)
    } else if c == 'U' {
        numeric_escape(s, advance(s, next), char_at(s, next), 16, 8)
    } else {
        Escape { pos: next, ch: c, error: Some(ScanError::IllegalEscape) }
    }
}

/// An escape ends at or after the place where it began, and not past the
/// end; where it ends at that place, which is the end of the input, the
/// character read last is the NUL character.
pub proof fn lemma_escape_from(s: Seq<char>, pos: int, quote: char)
    requires
        0 <= pos <= s.len(),
    ensures
        pos <= escape_from(s, pos, quote).pos <= s.len(),
        escape_from(s, pos, quote).pos == pos ==> escape_from(s, pos, quote).ch == '\0',
{
    let c = char_at(s, pos);
    let next = advance(s, pos);
    lemma_digits_from(s, next, c, 8, 3);
    lemma_digits_from(s, advance(s, next), char_at(s, next), 16, 2);
    lemma_digits_from(s, advance(s, next), char_at(s, next), 16, 4);
    lemma_digits_from(s, advance(s, next), char_at(s, next), 16, 8);
}

/// Where a quoted segment ends and what is wrong with it, if anything.
pub struct QuotedScan {
    /// The position after the segment.
    pub end: int,
    /// The last error met in the segment.
    pub error: Option<ScanError>,
}

/// The rest of a quoted segment, with `ch` being the character read last,
/// `pos` the position of the next one and `error` what was found wrong
/// before. The segment ends with the closing quote, or with the line end
/// or the end of the input that comes before it. Of the faults of a
/// segment the last one is kept.
pub open spec fn quoted_loop(
    s: Seq<char>,
    pos: int,
    ch: char,
    quote: char,
    error: Option<ScanError>,
) -> QuotedScan
    decreases s.len() - pos, (if ch == '\0' { 0int } else { 1int }),
{
    if pos < 0 || pos > s.len() || ch == quote {
        QuotedScan { end: pos, error }
    } else if ch == '\n' || (ch == '\0' && pos >= s.len()) {
        QuotedScan { end: pos, error: Some(ScanError::Unterminated) }
    } else if ch == '\\' {
        let escape = escape_from(s, pos, quote);
        if pos < escape.pos <= s.len() || (escape.pos == pos && escape.ch == '\0') {
            quoted_loop(s, escape.pos, escape.ch, quote, last_error(error, escape.error))
        } else {
            QuotedScan { end: pos, error }
        }
    } else {
        quoted_loop(s, advance(s, pos), char_at(s, pos), quote, error)
    }
}

/// The quoted segment whose opening quote was read last, with `pos` being
/// the position of the character after it and `error` what was found
/// wrong before.
pub open spec fn quoted_from(s: Seq<char>, pos: int, quote: char, error: Option<ScanError>) -> QuotedScan {
    quoted_loop(s, advance(s, pos), char_at(s, pos), quote, error)
}

/// The rest of a quoted segment ends at or after the place from which it
/// is read, and not past the end.
pub proof fn lemma_quoted_loop(
    s: Seq<char>,
    pos: int,
    ch: char,
    quote: char,
    error: Option<ScanError>,
)
    requires
        0 <= pos <= s.len(),
    ensures
        pos <= quoted_loop(s, pos, ch, quote, error).end <= s.len(),
        error is Some ==> quoted_loop(s, pos, ch, quote, error).error is Some,
    decreases s.len() - pos, (if ch == '\0' { 0int } else { 1int }),
{
    if ch != quote && ch != '\n' && !(ch == '\0' && pos >= s.len()) {
        if ch == '\\' {
            lemma_escape_from(s, pos, quote);
            let escape = escape_from(s, pos, quote);
            lemma_quoted_loop(s, escape.pos, escape.ch, quote, last_error(error, escape.error));
        } else {
            lemma_quoted_loop(s, advance(s, pos), char_at(s, pos), quote, error);
        }
    }
}

/// A quoted segment ends at or after the place where its inside began, and
/// not past the end.
pub proof fn lemma_quoted_from(s: Seq<char>, pos: int, quote: char, error: Option<ScanError>)
    requires
        0 <= pos <= s.len(),
    ensures
        pos <= quoted_from(s, pos, quote, error).end <= s.len(),
        error is Some ==> quoted_from(s, pos, quote, error).error is Some,
{
    lemma_quoted_loop(s, advance(s, pos), char_at(s, pos), quote, error);
}

/// A token as the scanner finds it: its kind, the characters it is made of,
/// and what is wrong with it if it is a quoted segment gone wrong.
pub struct Lexeme {
    /// The position of the first character of the token.
    pub start: int,
    /// The position after its last character.
    pub end: int,
    /// The kind of token.
    pub token: Token,
    /// What is wrong with a quoted segment.
    pub error: Option<ScanError>,
}

/// The token of `s` that begins at or after `pos`.
///
/// White space before the token is skipped. A quote character opens a
/// quoted segment, which is `Illegal` if something is wrong with it. A dot
/// or a comma is a separator by itself. A run of operator characters is an
/// operator. After that, in value mode whatever comes is a value, up to the
/// next comma or white space; else a run of field characters is a field,
/// and any other character is `Illegal` by itself.
pub open spec fn scan_at(s: Seq<char>, pos: int, value: bool) -> Lexeme {
    let start = run_end(s, pos, spaces());
    let c = char_at(s, start);
    if start >= s.len() {
        Lexeme { start, end: start, token: Token::EOF, error: None }
    } else if is_quote_char(c) {
        let q = quoted_from(s, start + 1, c, None);
        Lexeme {
            start,
            end: q.end,
            token: if q.error is None {
                Token::Quoted
            } else {
                Token::Illegal
            },
            error: q.error,
        }
    } else if is_separator_char(c) {
        Lexeme { start, end: start + 1, token: Token::Separator, error: None }
    } else if is_operator_char(c) {
        Lexeme {
            start,
            end: run_end(s, start + 1, operator_chars()),
            token: Token::Operator,
            error: None,
        }
    } else if value {
        Lexeme {
            start,
            end: run_end(s, start + 1, value_chars()),
            token: Token::Value,
            error: None,
        }
    } else if is_field_char(c) {
        Lexeme {
            start,
            end: run_end(s, start + 1, field_chars()),
            token: Token::Field,
            error: None,
        }
    } else {
        Lexeme { start, end: start + 1, token: Token::Illegal, error: None }
    }
}

/// Whether the scanner is in value mode after a token: an operator turns
/// the mode on, a separator and a value turn it off.
pub open spec fn value_mode_after(token: Token, value: bool) -> bool {
    match token {
        Token::Operator => true,
        Token::Separator => false,
        Token::Value => false,
        _ => value,
    }
}

/// A token lies within the input, after the position from which it was
/// sought, and is empty only at the end of the input.
pub proof fn lemma_scan_at(s: Seq<char>, pos: int, value: bool)
    requires
        0 <= pos <= s.len(),
    ensures
        pos <= scan_at(s, pos, value).start <= scan_at(s, pos, value).end <= s.len(),
        scan_at(s, pos, value).token == Token::EOF <==> scan_at(s, pos, value).start == s.len(),
        scan_at(s, pos, value).token != Token::EOF ==> scan_at(s, pos, value).start < scan_at(
            s,
            pos,
            value,
        ).end,
{
    let start = run_end(s, pos, spaces());
    lemma_run_end(s, pos, spaces());
    if start < s.len() {
        lemma_quoted_from(s, start + 1, char_at(s, start), None);
        lemma_run_end(s, start + 1, operator_chars());
        lemma_run_end(s, start + 1, value_chars());
        lemma_run_end(s, start + 1, field_chars());
    }
}

/// A scanner over the characters of a filter.
///
/// It reads tokens one after the other, from a position that only moves
/// forward. After an operator it is in value mode, in which the next token
/// may be an unquoted value.
#[derive(Debug)]
pub struct Scanner {
    input: Vec<char>,
    /// The position of the next character, counted in characters and in
    /// bytes.
    place: (usize, usize),
    value: bool,
    err: Option<ScanError>,
}

impl Scanner {
    #[verifier::type_invariant]
    spec fn inv(self) -> bool {
        &&& self.place.0 <= self.input@.len()
        &&& self.place.1 == byte_offset(self.input@, self.place.0 as int)
        &&& byte_offset(self.input@, self.input@.len() as int) <= usize::MAX
    }

    /// The characters being scanned.
    pub closed spec fn input(&self) -> Seq<char> {
        self.input@
    }

    /// The position of the next character to read, counted in characters.
    pub closed spec fn position(&self) -> int {
        self.place.0 as int
    }

    /// Whether the scanner is in value mode.
    pub closed spec fn value_mode(&self) -> bool {
        self.value
    }

    /// What was wrong with the last quoted segment, if anything.
    pub closed spec fn error(&self) -> Option<ScanError> {
        self.err
    }

    /// A scanner at the start of `input`.
    pub fn from_string(input: &str) -> (s: Scanner)
        ensures
            s.input() == input@,
            s.position() == 0,
            !s.value_mode(),
            s.error() is None,
    {
        let chars = chars_of(input);
        let bytes = input.as_bytes();
        let _ = bytes.len();
        proof {
            lemma_byte_offset(chars@, 0);
        }
        Scanner { input: chars, place: (0, 0), value: false, err: None }
    }

    /// Returns where the next character will be read from, counted in
    /// characters, which is never past the end of the input.
    pub fn index(&self) -> (pos: usize)
        ensures
            pos == self.position(),
            pos <= self.input().len(),
    {
        proof {
            use_type_invariant(self);
        }
        self.place.0
    }

    /// Returns where the next character will be read from, counted in
    /// bytes of the input's UTF-8 form.
    pub fn offset(&self) -> (at: usize)
        ensures
            at == byte_offset(self.input(), self.position()),
    {
        proof {
            use_type_invariant(self);
        }
        self.place.1
    }

    /// Returns what was wrong with the last quoted segment, if anything.
    pub fn err(&self) -> (e: Option<ScanError>)
        ensures
            e == self.error(),
    {
        self.err
    }

    /// Reads the next character and moves past it. At the end of the input
    /// it returns the NUL character and stays where it is.
    pub fn next(&mut self) -> (ch: char)
        ensures
            final(self).input() == old(self).input(),
            final(self).value_mode() == old(self).value_mode(),
            final(self).error() == old(self).error(),
            final(self).position() == advance(old(self).input(), old(self).position()),
            ch == char_at(old(self).input(), old(self).position()),
    {
        proof {
            use_type_invariant(&*self);
        }
        if self.place.0 < self.input.len() {
            let ch = self.input[self.place.0];
            proof {
                lemma_byte_offset(self.input@, self.place.0 as int);
                lemma_byte_offset(self.input@, self.place.0 + 1);
            }
            self.place = (self.place.0 + 1, self.place.1 + width_of(ch));
            ch
        } else {
            Token::EOF.to_char()
        }
    }

    /// Returns the next character without moving: the NUL character at the
    /// end of the input.
    pub fn peek(&self) -> (ch: char)
        ensures
            ch == char_at(self.input(), self.position()),
    {
        proof {
            use_type_invariant(self);
        }
        if self.place.0 < self.input.len() {
            self.input[self.place.0]
        } else {
            Token::EOF.to_char()
        }
    }

    /// Whether all the input has been read.
    fn at_end(&self) -> (r: bool)
        ensures
            r == (self.position() >= self.input().len()),
            self.position() <= self.input().len(),
    {
        proof {
            use_type_invariant(self);
        }
        self.place.0 >= self.input.len()
    }

    /// Moves past the white space at the position.
    fn skip_space(&mut self)
        ensures
            final(self).input() == old(self).input(),
            final(self).value_mode() == old(self).value_mode(),
            final(self).error() == old(self).error(),
            final(self).position() == run_end(
                old(self).input(),
                old(self).position(),
                spaces(),
            ),
    {
        let ghost s = self.input();
        let ghost start = self.position();
        proof {
            use_type_invariant(&*self);
        }
        while !self.at_end() && is_space_token(self.peek())
            invariant
                self.input() == s,
                self.value_mode() == old(self).value_mode(),
                self.error() == old(self).error(),
                start <= self.position() <= s.len(),
                run_end(s, start, spaces()) == run_end(s, self.position(), spaces()),
            decreases s.len() - self.position(),
        {
            self.next();
        }
    }

    /// Moves past the field characters at the position.
    pub fn scan_field(&mut self)
        ensures
            final(self).input() == old(self).input(),
            final(self).value_mode() == old(self).value_mode(),
            final(self).error() == old(self).error(),
            final(self).position() == run_end(
                old(self).input(),
                old(self).position(),
                field_chars(),
            ),
    {
        let ghost s = self.input();
        let ghost start = self.position();
        proof {
            use_type_invariant(&*self);
        }
        while !self.at_end() && is_field_token(self.peek())
            invariant
                self.input() == s,
                self.value_mode() == old(self).value_mode(),
                self.error() == old(self).error(),
                start <= self.position() <= s.len(),
                run_end(s, start, field_chars()) == run_end(s, self.position(), field_chars()),
            decreases s.len() - self.position(),
        {
            self.next();
        }
    }

    /// Moves past the operator characters at the position.
    pub fn scan_operator(&mut self)
        ensures
            final(self).input() == old(self).input(),
            final(self).value_mode() == old(self).value_mode(),
            final(self).error() == old(self).error(),
            final(self).position() == run_end(
                old(self).input(),
                old(self).position(),
                operator_chars(),
            ),
    {
        let ghost s = self.input();
        let ghost start = self.position();
        proof {
            use_type_invariant(&*self);
        }
        while !self.at_end() && is_operator_token(self.peek())
            invariant
                self.input() == s,
                self.value_mode() == old(self).value_mode(),
                self.error() == old(self).error(),
                start <= self.position() <= s.len(),
                run_end(s, start, operator_chars()) == run_end(s, self.position(), operator_chars()),
            decreases s.len() - self.position(),
        {
            self.next();
        }
    }

    /// Moves past the value characters at the position.
    pub fn scan_value(&mut self)
        ensures
            final(self).input() == old(self).input(),
            final(self).value_mode() == old(self).value_mode(),
            final(self).error() == old(self).error(),
            final(self).position() == run_end(
                old(self).input(),
                old(self).position(),
                value_chars(),
            ),
    {
        let ghost s = self.input();
        let ghost start = self.position();
        proof {
            use_type_invariant(&*self);
        }
        while !self.at_end() && is_value_token(self.peek())
            invariant
                self.input() == s,
                self.value_mode() == old(self).value_mode(),
                self.error() == old(self).error(),
                start <= self.position() <= s.len(),
                run_end(s, start, value_chars()) == run_end(s, self.position(), value_chars()),
            decreases s.len() - self.position(),
        {
            self.next();
        }
    }

    /// Records the error `e` in place of what was recorded before.
    fn record(&mut self, e: ScanError)
        ensures
            final(self).input() == old(self).input(),
            final(self).value_mode() == old(self).value_mode(),
            final(self).position() == old(self).position(),
            final(self).error() == Some(e),
    {
        proof {
            use_type_invariant(&*self);
        }
        self.err = Some(e);
    }

    /// Reads up to `n` digits of the given base. `ch` is the character
    /// read last: as long as it is a digit and digits are missing, the
    /// next character is read. Returns the character read last, which is
    /// the one at which reading stopped, and whether all `n` digits were
    /// there; if not, that error is recorded in place of any other.
    pub fn scan_digits(&mut self, ch: char, base: u64, n: u64) -> (r: (char, bool))
        ensures
            final(self).input() == old(self).input(),
            final(self).value_mode() == old(self).value_mode(),
            ({
                let digits = digits_from(
                    old(self).input(),
                    old(self).position(),
                    ch,
                    base as int,
                    n as nat,
                );
                &&& final(self).position() == digits.pos
                &&& r.0 == digits.ch
                &&& r.1 == (digits.missing == 0)
                &&& final(self).error() == last_error(
                    old(self).error(),
                    if digits.missing == 0 {
                        None
                    } else {
                        Some(ScanError::IllegalNumericEscape)
                    },
                )
            }),
    {
        let ghost s = self.input();
        let ghost start = self.position();
        proof {
            use_type_invariant(&*self);
        }
        let mut chi = ch;
        let mut ni = n;
        while ni > 0 && digit_val(chi) < base
            invariant
                self.input() == s,
                self.value_mode() == old(self).value_mode(),
                self.error() == old(self).error(),
                0 <= self.position() <= s.len(),
                digits_from(s, start, ch, base as int, n as nat) == digits_from(
                    s,
                    self.position(),
                    chi,
                    base as int,
                    ni as nat,
                ),
            decreases ni,
        {
            chi = self.next();
            ni = ni - 1;
        }
        if ni > 0 {
            self.record(ScanError::IllegalNumericEscape);
            return (chi, false);
        }
        (chi, true)
    }

    /// Reads the escape whose backslash was read last. Returns the
    /// character read last, which is the one after the escape or the one at
    /// which the escape went wrong, and whether the escape is legal; if
    /// not, its error is recorded in place of any other.
    pub fn scan_escape(&mut self, quote: char) -> (r: (char, bool))
        ensures
            final(self).input() == old(self).input(),
            final(self).value_mode() == old(self).value_mode(),
            ({
                let escape = escape_from(old(self).input(), old(self).position(), quote);
                &&& final(self).position() == escape.pos
                &&& r.0 == escape.ch
                &&& r.1 == (escape.error is None)
                &&& final(self).error() == last_error(old(self).error(), escape.error)
            }),
    {
        let ch = self.next();
        if ch == quote || ch == 'a' || ch == 'b' || ch == 'f' || ch == 'n' || ch == 'r' || ch == 't'
            || ch == 'v' || ch == '\\' {
            (self.next(), true)
        } else if '0' <= ch && ch <= '7' {
            self.scan_digits(ch, 8, 3)
        } else if ch == 'x' {
            let first = self.next();
            self.scan_digits(first, 16, 2)
        } else if ch == 'u' {
            let first = self.next();
            self.scan_digits(first, 16, 4)
        } else if ch == 'U' {
            let first = self.next();
            self.scan_digits(first, 16, 8)
        } else {
            self.record(ScanError::IllegalEscape);
            (ch, false)
        }
    }

    /// Reads the rest of a quoted segment whose opening quote was read
    /// last. Returns whether nothing is wrong with the segment; if
    /// something is, the last of its errors is recorded in place of any
    /// other.
    pub fn scan_quoted(&mut self, quote: char) -> (ok: bool)
        ensures
            final(self).input() == old(self).input(),
            final(self).value_mode() == old(self).value_mode(),
            ({
                let q = quoted_from(old(self).input(), old(self).position(), quote, None);
                &&& final(self).position() == q.end
                &&& ok == (q.error is None)
                &&& final(self).error() == last_error(old(self).error(), q.error)
            }),
    {
        let ghost s = self.input();
        let ghost start = self.position();
        let ghost before = self.error();
        let ghost mut found: Option<ScanError> = None;
        proof {
            use_type_invariant(&*self);
        }
        let mut illegal = false;
        let mut ch = self.next();  // read character after quote
        while ch != quote
            invariant
                self.input() == s,
                self.value_mode() == old(self).value_mode(),
                0 <= self.position() <= s.len(),
                quoted_from(s, start, quote, None) == quoted_loop(
                    s,
                    self.position(),
                    ch,
                    quote,
                    found,
                ),
                self.error() == last_error(before, found),
                illegal == (found is Some),
                s == old(self).input(),
                start == old(self).position(),
                before == old(self).error(),
            decreases s.len() - self.position(), (if ch == '\0' { 0int } else { 1int }),
        {
            if ch == '\n' || (ch == Token::EOF.to_char() && self.at_end()) {
                self.record(ScanError::Unterminated);
                return false;
            }
            if ch == '\\' {
                proof {
                    lemma_escape_from(s, self.position(), quote);
                    found = last_error(found, escape_from(s, self.position(), quote).error);
                }
                let (after, legal) = self.scan_escape(quote);
                ch = after;
                if !legal {
                    illegal = true;
                }
            } else {
                ch = self.next();
            }
        }
        !illegal
    }

    /// Reads the next token: returns the offset of its first character,
    /// counted in bytes of the input's UTF-8 form, its kind and its text.
    /// The text of a quoted segment includes the quotes; the text at the
    /// end of the input is empty.
    pub fn scan(&mut self) -> (r: (usize, Token, String))
        ensures
            final(self).input() == old(self).input(),
            ({
                let lexeme = scan_at(
                    old(self).input(),
                    old(self).position(),
                    old(self).value_mode(),
                );
                &&& r.0 == byte_offset(old(self).input(), lexeme.start)
                &&& r.1 == lexeme.token
                &&& r.2@ == old(self).input().subrange(lexeme.start, lexeme.end)
                &&& final(self).position() == lexeme.end
                &&& final(self).error() == lexeme.error
                &&& final(self).value_mode() == value_mode_after(
                    lexeme.token,
                    old(self).value_mode(),
                )
            }),
    {
        let ghost s = self.input();
        proof {
            use_type_invariant(&*self);
            lemma_scan_at(s, self.position(), self.value_mode());
        }
        self.err = None;
        self.skip_space();
        let pos = self.index();
        let at = self.offset();
        if self.at_end() {
            return (at, Token::EOF, String::new());
        }
        let ch = self.next();
        let token = if is_quote_token(ch) {
            if self.scan_quoted(ch) {
                Token::Quoted
            } else {
                Token::Illegal
            }
        } else if is_separator_token(ch) {
            self.set_value_mode(false);
            Token::Separator
        } else if is_operator_token(ch) {
            self.scan_operator();
            self.set_value_mode(true);
            Token::Operator
        } else if self.value {
            self.scan_value();
            self.set_value_mode(false);
            Token::Value
        } else if is_field_token(ch) {
            self.scan_field();
            Token::Field
        } else {
            Token::Illegal
        };
        let end = self.index();
        let text = string_of(&self.input, pos, end);
        (at, token, text)
    }

    /// Returns whether the scanner is in value mode.
    pub fn in_value_mode(&self) -> (value: bool)
        ensures
            value == self.value_mode(),
    {
        self.value
    }

    /// Goes back to a position and a mode that the scanner was in before:
    /// `pos` is the position counted in characters, `at` the same position
    /// counted in bytes.
    pub(crate) fn rewind(&mut self, pos: usize, at: usize, value: bool)
        requires
            pos <= old(self).input().len(),
            at == byte_offset(old(self).input(), pos as int),
        ensures
            final(self).input() == old(self).input(),
            final(self).position() == pos,
            final(self).value_mode() == value,
            final(self).error() == old(self).error(),
    {
        proof {
            use_type_invariant(&*self);
        }
        self.place = (pos, at);
        self.value = value;
    }

    /// Turns value mode on or off.
    fn set_value_mode(&mut self, value: bool)
        ensures
            final(self).input() == old(self).input(),
            final(self).position() == old(self).position(),
            final(self).error() == old(self).error(),
            final(self).value_mode() == value,
    {
        proof {
            use_type_invariant(&*self);
        }
        self.value = value;
    }
}

} // verus!
