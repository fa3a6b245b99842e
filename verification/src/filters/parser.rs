//! The parser of the filter language: from tokens to selectors.

use crate::error::{Error, ErrorKind};
use crate::filters::filter::{All, Any, Operator, Select, SelectView};
use crate::filters::quote::{unquote, unquote_spec};
use crate::text::byte_offset;
use crate::filters::scanner::{
    lemma_scan_at, scan_at, value_mode_after, Lexeme, ScanError, Scanner, Token,
};
use vstd::prelude::*;
use vstd::string::{StrSliceExecFns, StringExecFns};

verus! {

/// Why and where a filter could not be parsed.
pub struct Failure {
    /// The position, in characters, of the token that is at fault.
    pub pos: int,
    /// What is wrong with it.
    pub msg: Seq<char>,
}

/// Where the parser stands: the position of the next character, and
/// whether an unquoted value may come.
pub struct Cursor {
    pub pos: int,
    pub value: bool,
}

/// A selector as it is written: a field path, an operator and a value.
pub struct Selector {
    pub field_path: Seq<Seq<char>>,
    pub operator: Operator,
    pub value: Seq<char>,
}

/// The next token from `c` on.
pub open spec fn lexeme(s: Seq<char>, c: Cursor) -> Lexeme {
    scan_at(s, c.pos, c.value)
}

/// Where the parser stands after the token `lx`.
pub open spec fn after(lx: Lexeme, c: Cursor) -> Cursor {
    Cursor { pos: lx.end, value: value_mode_after(lx.token, c.value) }
}

/// The characters of the token `lx`.
pub open spec fn text_of(s: Seq<char>, lx: Lexeme) -> Seq<char> {
    s.subrange(lx.start, lx.end)
}

/// The failure that blames the token `lx`.
pub open spec fn blame(lx: Lexeme, msg: Seq<char>) -> Failure {
    Failure { pos: lx.start, msg }
}

/// What is wrong with a token that is not the one expected: what the
/// scanner found wrong with it, if it found anything, else `otherwise`.
pub open spec fn complaint(lx: Lexeme, otherwise: Seq<char>) -> Seq<char> {
    match lx.error {
        Some(e) => if lx.token == Token::Illegal {
            e.text()
        } else {
            otherwise
        },
        None => otherwise,
    }
}

/// Whether `lx` is the separator `sep`.
pub open spec fn is_separator(s: Seq<char>, lx: Lexeme, sep: char) -> bool {
    lx.token == Token::Separator && 0 <= lx.start < s.len() && s[lx.start] == sep
}

/// The complaint about a quote character that is not accepted.
pub open spec fn msg_invalid_quote() -> Seq<char> {
    "invalid quote encountered"@
}

/// The complaint about a quoted segment that stands for nothing.
pub open spec fn msg_unquoting_failed() -> Seq<char> {
    "unquoting failed: invalid syntax"@
}

/// The complaint about a token that is no segment of a field path.
pub open spec fn msg_expected_field() -> Seq<char> {
    "expected field or quoted"@
}

/// The complaint about a token that is no operator.
pub open spec fn msg_expected_operator() -> Seq<char> {
    "expected an operator (\"==\"|\"!=\"|\"~=\")"@
}

/// The complaint about a token that is no value.
pub open spec fn msg_expected_value() -> Seq<char> {
    "expected value or quoted"@
}

/// The complaint about a run of operator characters that is no operator.
pub open spec fn msg_unsupported_operator(op: Seq<char>) -> Seq<char> {
    "unsupported operator \""@ + op + "\""@
}

/// The complaint about a token that follows a selector and is no comma.
pub open spec fn msg_unexpected_input(text: Seq<char>) -> Seq<char> {
    "unexpected input: "@ + text
}

/// What the quoted segment `text`, found at `pos`, stands for. Outside the
/// value of a regular expression only the double quote is accepted.
pub open spec fn unquoted_text(text: Seq<char>, pos: int, allow_alt: bool) -> Result<
    Seq<char>,
    Failure,
> {
    if !allow_alt && !(text.len() > 0 && text[0] == '"') {
        Err(Failure { pos, msg: msg_invalid_quote() })
    } else {
        match unquote_spec(text) {
            Some(v) => Ok(v),
            None => Err(Failure { pos, msg: msg_unquoting_failed() }),
        }
    }
}

/// What the quoted segment `lx` stands for.
pub open spec fn unquoted(s: Seq<char>, lx: Lexeme, allow_alt: bool) -> Result<Seq<char>, Failure> {
    unquoted_text(text_of(s, lx), lx.start, allow_alt)
}

/// One segment of a field path: a field, or a segment in double quotes.
pub open spec fn field_at(s: Seq<char>, c: Cursor) -> Result<(Seq<char>, Cursor), Failure> {
    let lx = lexeme(s, c);
    match lx.token {
        Token::Field => Ok((text_of(s, lx), after(lx, c))),
        Token::Quoted => match unquoted(s, lx, false) {
            Ok(v) => Ok((v, after(lx, c))),
            Err(f) => Err(f),
        },
        _ => Err(blame(lx, complaint(lx, msg_expected_field()))),
    }
}

/// A field path: segments joined by dots, after the segments `done`.
pub open spec fn fieldpath_from(s: Seq<char>, c: Cursor, done: Seq<Seq<char>>) -> Result<
    (Seq<Seq<char>>, Cursor),
    Failure,
>
    decreases s.len() - c.pos,
{
    match field_at(s, c) {
        Err(f) => Err(f),
        Ok((segment, c1)) => {
            let lx = lexeme(s, c1);
            if is_separator(s, lx, '.') && c.pos < lx.end <= s.len() {
                fieldpath_from(s, after(lx, c1), done.push(segment))
            } else {
                Ok((done.push(segment), c1))
            }
        },
    }
}

/// The operator that the token `lx` spells.
pub open spec fn operator_of(s: Seq<char>, lx: Lexeme) -> Result<Operator, Failure> {
    let text = text_of(s, lx);
    if lx.token == Token::Operator {
        if text == "=="@ {
            Ok(Operator::Equal)
        } else if text == "!="@ {
            Ok(Operator::NotEqual)
        } else if text == "~="@ {
            Ok(Operator::Matches)
        } else {
            Err(blame(lx, msg_unsupported_operator(text)))
        }
    } else {
        Err(blame(lx, complaint(lx, msg_expected_operator())))
    }
}

/// The value that the token `lx` gives to a selector with the operator
/// `op`: an unquoted value as it stands, a quoted segment for what it
/// stands for.
pub open spec fn value_of(s: Seq<char>, lx: Lexeme, op: Operator) -> Result<Seq<char>, Failure> {
    match lx.token {
        Token::Value => Ok(text_of(s, lx)),
        Token::Field => Ok(text_of(s, lx)),
        Token::Quoted => unquoted(s, lx, op == Operator::Matches),
        _ => Err(blame(lx, complaint(lx, msg_expected_value()))),
    }
}

/// One selector: a field path, alone or followed by an operator and a
/// value.
pub open spec fn selector_at(s: Seq<char>, c: Cursor) -> Result<(Selector, Cursor), Failure> {
    match fieldpath_from(s, c, Seq::empty()) {
        Err(f) => Err(f),
        Ok((field_path, c1)) => {
            let lx = lexeme(s, c1);
            if lx.token == Token::EOF || is_separator(s, lx, ',') {
                Ok((Selector { field_path, operator: Operator::Present, value: Seq::empty() }, c1))
            } else {
                match operator_of(s, lx) {
                    Err(f) => Err(f),
                    Ok(operator) => {
                        let c2 = after(lx, c1);
                        let lv = lexeme(s, c2);
                        match value_of(s, lv, operator) {
                            Err(f) => Err(f),
                            Ok(value) => Ok(
                                (Selector { field_path, operator, value }, after(lv, c2)),
                            ),
                        }
                    },
                }
            }
        },
    }
}

/// The selectors of a filter: selectors joined by commas, up to the end of
/// the input, after the selectors `done`.
pub open spec fn selectors_from(s: Seq<char>, c: Cursor, done: Seq<Selector>) -> Result<
    Seq<Selector>,
    Failure,
>
    decreases s.len() - c.pos,
{
    match selector_at(s, c) {
        Err(f) => Err(f),
        Ok((selector, c1)) => {
            let lx = lexeme(s, c1);
            if lx.token == Token::EOF {
                Ok(done.push(selector))
            } else if is_separator(s, lx, ',') {
                if c.pos < lx.end <= s.len() {
                    selectors_from(s, after(lx, c1), done.push(selector))
                } else {
                    Ok(done.push(selector))
                }
            } else {
                Err(blame(lx, msg_unexpected_input(text_of(s, lx))))
            }
        },
    }
}

/// What a filter parses to: no selector for the empty filter, which so
/// matches everything, else its selectors or the failure.
pub open spec fn parse_spec(s: Seq<char>) -> Result<Seq<Selector>, Failure> {
    if s.len() == 0 {
        Ok(Seq::empty())
    } else {
        selectors_from(s, Cursor { pos: 0, value: false }, Seq::empty())
    }
}

/// Whether a selector is one that can be written: its field path has a
/// segment, and it has a value only with an operator that compares.
pub open spec fn is_writable(selector: Selector) -> bool {
    &&& selector.field_path.len() >= 1
    &&& selector.operator == Operator::Present ==> selector.value.len() == 0
}

/// A field path that parses has a segment more, at least, than the
/// segments it began with.
pub proof fn lemma_fieldpath_grows(s: Seq<char>, c: Cursor, done: Seq<Seq<char>>)
    ensures
        fieldpath_from(s, c, done) matches Ok((path, _)) ==> path.len() > done.len(),
    decreases s.len() - c.pos,
{
    if let Ok((segment, c1)) = field_at(s, c) {
        let lx = lexeme(s, c1);
        if is_separator(s, lx, '.') && c.pos < lx.end <= s.len() {
            lemma_fieldpath_grows(s, after(lx, c1), done.push(segment));
        }
    }
}

/// A selector that parses is one that can be written.
pub proof fn lemma_selector_writable(s: Seq<char>, c: Cursor)
    ensures
        selector_at(s, c) matches Ok((selector, _)) ==> is_writable(selector),
{
    lemma_fieldpath_grows(s, c, Seq::empty());
}

/// Selectors that parse are ones that can be written, if those they began
/// with are.
pub proof fn lemma_selectors_writable(s: Seq<char>, c: Cursor, done: Seq<Selector>)
    requires
        forall|i: int| 0 <= i < done.len() ==> is_writable(#[trigger] done[i]),
    ensures
        selectors_from(s, c, done) matches Ok(selectors) ==> forall|i: int|
            0 <= i < selectors.len() ==> is_writable(#[trigger] selectors[i]),
    decreases s.len() - c.pos,
{
    lemma_selector_writable(s, c);
    if let Ok((selector, c1)) = selector_at(s, c) {
        let lx = lexeme(s, c1);
        if lx.token != Token::EOF && is_separator(s, lx, ',') && c.pos < lx.end <= s.len() {
            lemma_selectors_writable(s, after(lx, c1), done.push(selector));
        }
    }
}

/// Whatever a filter parses to, each of its selectors has a field path of
/// at least one segment, and a value only together with an operator that
/// compares.
pub proof fn lemma_parsed_writable(s: Seq<char>)
    ensures
        parse_spec(s) matches Ok(selectors) ==> forall|i: int|
            0 <= i < selectors.len() ==> is_writable(#[trigger] selectors[i]),
{
    lemma_selectors_writable(s, Cursor { pos: 0, value: false }, Seq::empty());
}

/// The text of a parse error: the input with the place of the fault marked
/// in it, and what is wrong.
pub open spec fn render(input: Seq<char>, pos: int, msg: Seq<char>) -> Seq<char> {
    if 0 <= pos < input.len() {
        "filters: parse error: ["@ + input.subrange(0, pos) + " >|"@ + input.subrange(pos, pos + 1)
            + "|< "@ + input.subrange(pos + 1, input.len() as int) + "]: "@ + msg
    } else {
        "filters: parse error: ["@ + input + "]: "@ + msg
    }
}

/// The failure to parse a filter: the filter, the place of the fault and
/// what is wrong there.
#[derive(Debug)]
pub struct ParseError {
    input: String,
    pos: usize,
    msg: String,
}

impl ParseError {
    /// The filter that could not be parsed.
    pub closed spec fn input_spec(&self) -> Seq<char> {
        self.input@
    }

    /// Where and why it could not be parsed.
    pub closed spec fn failure(&self) -> Failure {
        Failure { pos: self.pos as int, msg: self.msg@ }
    }

    /// Returns the filter that could not be parsed.
    pub fn input(&self) -> (s: &String)
        ensures
            s@ == self.input_spec(),
    {
        &self.input
    }

    /// Returns the position of the fault, counted in characters.
    pub fn pos(&self) -> (pos: usize)
        ensures
            pos == self.failure().pos,
    {
        self.pos
    }

    /// Returns what is wrong.
    pub fn msg(&self) -> (s: &String)
        ensures
            s@ == self.failure().msg,
    {
        &self.msg
    }

    /// Returns the position of the fault, counted in bytes of the filter's
    /// UTF-8 form.
    pub fn offset(&self) -> (n: usize)
        ensures
            n == byte_offset(
                self.input_spec(),
                if self.failure().pos <= self.input_spec().len() {
                    self.failure().pos
                } else {
                    self.input_spec().len() as int
                },
            ),
    {
        let input = self.input.as_str();
        let n = input.unicode_len();
        if self.pos <= n {
            input.substring_char(0, self.pos).as_bytes().len()
        } else {
            assert(input@.subrange(0, input@.len() as int) == input@);
            input.as_bytes().len()
        }
    }

    /// Returns the text of the error.
    pub fn to_string(&self) -> (s: String)
        ensures
            s@ == render(self.input_spec(), self.failure().pos, self.failure().msg),
    {
        let input = self.input.as_str();
        let n = input.unicode_len();
        let mut s = "filters: parse error: [".to_owned();
        if self.pos < n {
            s.append(input.substring_char(0, self.pos));
            s.append(" >|");
            s.append(input.substring_char(self.pos, self.pos + 1));
            s.append("|< ");
            s.append(input.substring_char(self.pos + 1, n));
        } else {
            s.append(input);
        }
        s.append("]: ");
        s.append(self.msg.as_str());
        s
    }
}

impl ParseError {
    /// Turns the failure to parse into the error of kind `InvalidArgument`
    /// that carries its text.
    pub fn into_error(self) -> (e: Error)
        ensures
            e.kind_spec() == ErrorKind::InvalidArgument,
            e.message_spec() == render(self.input_spec(), self.failure().pos, self.failure().msg),
    {
        Error::_new(ErrorKind::InvalidArgument, self.to_string())
    }
}

/// Whether the error `e` tells of the failure `f` on `input`.
pub open spec fn reports(e: ParseError, input: Seq<char>, f: Failure) -> bool {
    e.input_spec() == input && e.failure() == f
}

/// The error that blames the token at `pos`.
fn mkerr(input: &str, pos: usize, msg: String) -> (e: ParseError)
    ensures
        reports(e, input@, Failure { pos: pos as int, msg: msg@ }),
{
    ParseError { input: input.to_owned(), pos, msg }
}

/// What is wrong with a token that is not the one expected.
fn complain(token: Token, error: Option<ScanError>, otherwise: &str) -> (msg: String)
    ensures
        msg@ == match error {
            Some(e) => if token == Token::Illegal {
                e.text()
            } else {
                otherwise@
            },
            None => otherwise@,
        },
{
    match error {
        Some(e) => if token == Token::Illegal {
            e.as_str().to_owned()
        } else {
            otherwise.to_owned()
        },
        None => otherwise.to_owned(),
    }
}

/// A token as the scanner returned it.
struct Scanned {
    pos: usize,
    token: Token,
    text: String,
    error: Option<ScanError>,
}

impl Scanner {
    /// Where the scanner stands.
    pub open spec fn cursor(&self) -> Cursor {
        Cursor { pos: self.position(), value: self.value_mode() }
    }
}

/// Whether `t` is the token `lx` of `s`.
spec fn is_lexeme(t: Scanned, s: Seq<char>, lx: Lexeme) -> bool {
    &&& t.pos == lx.start
    &&& t.token == lx.token
    &&& t.text@ == text_of(s, lx)
    &&& t.error == lx.error
}

/// Reads the next token.
fn scan_token(scanner: &mut Scanner) -> (t: Scanned)
    ensures
        final(scanner).input() == old(scanner).input(),
        is_lexeme(t, old(scanner).input(), lexeme(old(scanner).input(), old(scanner).cursor())),
        final(scanner).cursor() == after(
            lexeme(old(scanner).input(), old(scanner).cursor()),
            old(scanner).cursor(),
        ),
        old(scanner).position() <= t.pos <= final(scanner).position() <= old(scanner).input().len(),
        t.token != Token::EOF ==> t.pos < final(scanner).position(),
        t.token == Token::Separator ==> final(scanner).position() == t.pos + 1,
{
    let _ = scanner.index();
    proof {
        lemma_scan_at(scanner.input(), scanner.position(), scanner.value_mode());
    }
    let (_, token, text) = scanner.scan();
    let error = scanner.err();
    // The token ends where the scanner stands, and begins as many
    // characters before that as it holds.
    let pos = scanner.index() - text.as_str().unicode_len();
    Scanned { pos, token, text, error }
}

/// Returns what the quoted segment `text`, found at `pos`, stands for.
fn unquote_token(input: &str, pos: usize, text: &str, allow_alt: bool) -> (r: Result<
    String,
    ParseError,
>)
    ensures
        match unquoted_text(text@, pos as int, allow_alt) {
            Ok(v) => r matches Ok(out) && out@ == v,
            Err(f) => r matches Err(e) && reports(e, input@, f),
        },
{
    if !allow_alt {
        let double = text.unicode_len() > 0 && text.get_char(0) == '"';
        if !double {
            return Err(mkerr(input, pos, "invalid quote encountered".to_owned()));
        }
    }
    match unquote(text) {
        Some(v) => Ok(v),
        None => Err(mkerr(input, pos, "unquoting failed: invalid syntax".to_owned())),
    }
}

/// Parses one segment of a field path.
fn field(input: &str, scanner: &mut Scanner) -> (r: Result<String, ParseError>)
    requires
        old(scanner).input() == input@,
    ensures
        final(scanner).input() == input@,
        match field_at(input@, old(scanner).cursor()) {
            Ok((segment, c)) => r matches Ok(out) && out@ == segment && final(scanner).cursor()
                == c,
            Err(f) => r matches Err(e) && reports(e, input@, f),
        },
        old(scanner).position() <= final(scanner).position() <= input@.len(),
        r is Ok ==> old(scanner).position() < final(scanner).position(),
{
    let t = scan_token(scanner);
    match t.token {
        Token::Field => Ok(t.text),
        Token::Quoted => unquote_token(input, t.pos, t.text.as_str(), false),
        _ => Err(mkerr(input, t.pos, complain(t.token, t.error, "expected field or quoted"))),
    }
}

/// Whether `t` is the separator `sep`.
fn is_separator_token(t: &Scanned, sep: char) -> (r: bool)
    requires
        t.token == Token::Separator ==> t.text@.len() == 1,
    ensures
        r == (t.token == Token::Separator && t.text@.len() == 1 && t.text@[0] == sep),
{
    match t.token {
        Token::Separator => t.text.as_str().get_char(0) == sep,
        _ => false,
    }
}

/// Parses a field path: segments joined by dots.
fn fieldpath(input: &str, scanner: &mut Scanner) -> (r: Result<Vec<String>, ParseError>)
    requires
        old(scanner).input() == input@,
    ensures
        final(scanner).input() == input@,
        match fieldpath_from(input@, old(scanner).cursor(), Seq::empty()) {
            Ok((path, c)) => r matches Ok(out) && out.deep_view() == path && final(scanner).cursor() == c,
            Err(f) => r matches Err(e) && reports(e, input@, f),
        },
        old(scanner).position() <= final(scanner).position() <= input@.len(),
        r is Ok ==> old(scanner).position() < final(scanner).position(),
{
    let ghost s = input@;
    let ghost start = scanner.cursor();
    let mut path: Vec<String> = Vec::new();
    let ghost mut first = true;
    assert(path.deep_view() =~= Seq::<Seq<char>>::empty());
    let _ = scanner.index();
    loop
        invariant
            scanner.input() == s,
            s == input@,
            start == old(scanner).cursor(),
            fieldpath_from(s, start, Seq::empty()) == fieldpath_from(
                s,
                scanner.cursor(),
                path.deep_view(),
            ),
            start.pos <= scanner.position() <= s.len(),
            !first ==> start.pos < scanner.position(),
        decreases s.len() - scanner.position(),
    {
        let ghost done = path.deep_view();
        let segment = match field(input, scanner) {
            Ok(segment) => segment,
            Err(e) => {
                return Err(e);
            },
        };
        let ghost c1 = scanner.cursor();
        path.push(segment);
        proof {
            assert(path.deep_view() =~= done.push(segment@));
            first = false;
        }
        let pos = scanner.index();
        let at = scanner.offset();
        let value = scanner.in_value_mode();
        let t = scan_token(scanner);
        proof {
            let lx = lexeme(s, c1);
            if t.token == Token::Separator {
                assert(t.text@.len() == 1);
                assert(t.text@[0] == s[lx.start]);
            }
        }
        if !is_separator_token(&t, '.') {
            scanner.rewind(pos, at, value);
            assert(scanner.cursor() == c1);
            return Ok(path);
        }
    }
}

/// Reads the operator that the token `t` spells.
fn operator(input: &str, t: &Scanned, Ghost(lx): Ghost<Lexeme>) -> (r: Result<
    Operator,
    ParseError,
>)
    requires
        is_lexeme(*t, input@, lx),
    ensures
        match operator_of(input@, lx) {
            Ok(op) => r == Ok::<Operator, ParseError>(op),
            Err(f) => r matches Err(e) && reports(e, input@, f),
        },
{
    match t.token {
        Token::Operator => {
            let text = t.text.as_str();
            if *text == *"==" {
                Ok(Operator::Equal)
            } else if *text == *"!=" {
                Ok(Operator::NotEqual)
            } else if *text == *"~=" {
                Ok(Operator::Matches)
            } else {
                let mut msg = "unsupported operator \"".to_owned();
                msg.append(text);
                msg.append("\"");
                Err(mkerr(input, t.pos, msg))
            }
        },
        _ => Err(
            mkerr(
                input,
                t.pos,
                complain(t.token, t.error, "expected an operator (\"==\"|\"!=\"|\"~=\")"),
            ),
        ),
    }
}

/// Reads the value that the token `t` gives to a selector with the
/// operator `op`.
fn value(input: &str, t: Scanned, op: Operator, Ghost(lx): Ghost<Lexeme>) -> (r: Result<
    String,
    ParseError,
>)
    requires
        is_lexeme(t, input@, lx),
    ensures
        match value_of(input@, lx, op) {
            Ok(v) => r matches Ok(out) && out@ == v,
            Err(f) => r matches Err(e) && reports(e, input@, f),
        },
{
    match t.token {
        Token::Value => Ok(t.text),
        Token::Field => Ok(t.text),
        Token::Quoted => unquote_token(
            input,
            t.pos,
            t.text.as_str(),
            match op {
                Operator::Matches => true,
                _ => false,
            },
        ),
        _ => Err(mkerr(input, t.pos, complain(t.token, t.error, "expected value or quoted"))),
    }
}

/// The selector that is made of the selector `written`, with the value
/// compiled where it is a regular expression that compiles.
pub open spec fn made_of(written: Selector) -> SelectView {
    SelectView::of(written.field_path, written.operator, written.value)
}

/// The selectors that are made of the selectors `written`, one by one.
pub open spec fn made_all(written: Seq<Selector>) -> Seq<SelectView> {
    Seq::new(written.len(), |i: int| made_of(written[i]))
}

/// Whether the selector `made` is the selector `written`.
pub open spec fn is_selector(made: SelectView, written: Selector) -> bool {
    made == made_of(written)
}

/// Whether the selectors `made` are the selectors `written`, one by one.
pub open spec fn are_selectors(made: Seq<SelectView>, written: Seq<Selector>) -> bool {
    &&& made.len() == written.len()
    &&& forall|i: int| 0 <= i < made.len() ==> is_selector(#[trigger] made[i], written[i])
}

/// Parses one selector.
fn selector(input: &str, scanner: &mut Scanner) -> (r: Result<Select, ParseError>)
    requires
        old(scanner).input() == input@,
    ensures
        final(scanner).input() == input@,
        match selector_at(input@, old(scanner).cursor()) {
            Ok((written, c)) => r matches Ok(made) && is_selector(made@, written) && final(scanner).cursor() == c,
            Err(f) => r matches Err(e) && reports(e, input@, f),
        },
        old(scanner).position() <= final(scanner).position() <= input@.len(),
        r is Ok ==> old(scanner).position() < final(scanner).position(),
{
    let ghost s = input@;
    let path = fieldpath(input, scanner)?;
    let ghost c1 = scanner.cursor();
    let ghost lx = lexeme(s, c1);
    let pos = scanner.index();
    let at = scanner.offset();
    let mode = scanner.in_value_mode();
    let t = scan_token(scanner);
    proof {
        if t.token == Token::Separator {
            assert(t.text@.len() == 1);
            assert(t.text@[0] == s[lx.start]);
        }
    }
    let present = match t.token {
        Token::EOF => true,
        _ => is_separator_token(&t, ','),
    };
    if present {
        scanner.rewind(pos, at, mode);
        assert(scanner.cursor() == c1);
        return Ok(Select::new(path, Operator::Present, String::new()));
    }
    let op = operator(input, &t, Ghost(lx))?;
    let ghost c2 = scanner.cursor();
    let ghost lv = lexeme(s, c2);
    let v = scan_token(scanner);
    let text = value(input, v, op, Ghost(lv))?;
    Ok(Select::new(path, op, text))
}

/// Parses the selectors of a filter, up to the end of the input.
fn selectors(input: &str, scanner: &mut Scanner) -> (r: Result<Vec<Select>, ParseError>)
    requires
        old(scanner).input() == input@,
    ensures
        match selectors_from(input@, old(scanner).cursor(), Seq::empty()) {
            Ok(written) => r matches Ok(made) && are_selectors(views_of(made@), written),
            Err(f) => r matches Err(e) && reports(e, input@, f),
        },
{
    let ghost s = input@;
    let ghost start = scanner.cursor();
    let ghost mut done: Seq<Selector> = Seq::empty();
    let mut made: Vec<Select> = Vec::new();
    let _ = scanner.index();
    loop
        invariant
            scanner.input() == s,
            s == input@,
            start == old(scanner).cursor(),
            selectors_from(s, start, Seq::empty()) == selectors_from(s, scanner.cursor(), done),
            are_selectors(views_of(made@), done),
            scanner.position() <= s.len(),
        decreases s.len() - scanner.position(),
    {
        let ghost here = scanner.cursor();
        let one = match selector(input, scanner) {
            Ok(one) => one,
            Err(e) => {
                return Err(e);
            },
        };
        proof {
            let written = selector_at(s, here)->Ok_0.0;
            let before = views_of(made@);
            done = done.push(written);
            assert(views_of(made@.push(one)) =~= before.push(one@));
        }
        made.push(one);
        let ghost c1 = scanner.cursor();
        let t = scan_token(scanner);
        proof {
            let lx = lexeme(s, c1);
            if t.token == Token::Separator {
                assert(t.text@.len() == 1);
                assert(t.text@[0] == s[lx.start]);
            }
        }
        match t.token {
            Token::EOF => {
                return Ok(made);
            },
            _ => {
                if !is_separator_token(&t, ',') {
                    let mut msg = "unexpected input: ".to_owned();
                    msg.append(t.text.as_str());
                    return Err(mkerr(input, t.pos, msg));
                }
            },
        }
    }
}

/// The views of selectors.
pub open spec fn views_of(selectors: Seq<Select>) -> Seq<SelectView> {
    Seq::new(selectors.len(), |i: int| selectors[i]@)
}

/// Parses a filter into the conjunction of its selectors.
///
/// The filter is a list of selectors joined by commas. A selector is a
/// field path, alone or followed by an operator and a value; a field path
/// is a list of segments joined by dots. The empty filter has no selector
/// and so matches everything. White space between tokens is skipped.
///
/// What is returned is what [`parse_spec`] tells: the selectors as they
/// are written, or the first failure with its place in the filter.
pub fn parse(input: &str) -> (r: Result<All<Select>, ParseError>)
    ensures
        match parse_spec(input@) {
            Ok(written) => r matches Ok(all) && all@ == made_all(written),
            Err(f) => r matches Err(e) && reports(e, input@, f),
        },
{
    if input.unicode_len() == 0 {
        let all = All(Vec::new());
        assert(all@ =~= made_all(Seq::empty()));
        return Ok(all);
    }
    let mut scanner = Scanner::from_string(input);
    match selectors(input, &mut scanner) {
        Ok(made) => {
            let all = All(made);
            assert(all@ =~= views_of(made@));
            assert(all@ =~= made_all(parse_spec(input@)->Ok_0));
            Ok(all)
        },
        Err(e) => Err(e),
    }
}

/// Whether `inputs[i]` is the first filter that does not parse.
pub open spec fn first_failure(inputs: Seq<Seq<char>>, i: int) -> bool {
    &&& 0 <= i < inputs.len()
    &&& parse_spec(inputs[i]) is Err
    &&& forall|j: int| 0 <= j < i ==> parse_spec(#[trigger] inputs[j]) is Ok
}

/// Whether every one of `inputs` parses.
pub open spec fn all_parse(inputs: Seq<Seq<char>>) -> bool {
    forall|i: int| 0 <= i < inputs.len() ==> parse_spec(#[trigger] inputs[i]) is Ok
}

/// Whether the clause `made` is what the filter `input` parses to.
pub open spec fn is_clause(made: Seq<SelectView>, input: Seq<char>) -> bool {
    parse_spec(input) is Ok && made == made_all(parse_spec(input)->Ok_0)
}

/// The clauses that `inputs` parse to, where all of them parse: one clause
/// for each filter; for no filter at all, the one clause without
/// selectors, which matches everything.
pub open spec fn clauses_of(inputs: Seq<Seq<char>>) -> Seq<Seq<SelectView>> {
    if inputs.len() == 0 {
        seq![Seq::<SelectView>::empty()]
    } else {
        Seq::new(inputs.len(), |i: int| made_all(parse_spec(inputs[i])->Ok_0))
    }
}

/// Parses each of `inputs` and returns the filter that matches where any
/// of them does. Without any input the filter matches everything.
///
/// Fails with `InvalidArgument` where one of the filters does not parse;
/// the message is the text of the parse error of the first such filter.
pub fn parse_all(inputs: &Vec<String>) -> (r: Result<Any<All<Select>>, Error>)
    ensures
        r is Ok <==> all_parse(inputs.deep_view()),
        r matches Ok(any) ==> any@ == clauses_of(inputs.deep_view()),
        r matches Err(e) ==> e.kind_spec() == ErrorKind::InvalidArgument && exists|i: int|
            first_failure(inputs.deep_view(), i) && e.message_spec() == render(
                #[trigger] inputs.deep_view()[i],
                parse_spec(inputs.deep_view()[i])->Err_0.pos,
                parse_spec(inputs.deep_view()[i])->Err_0.msg,
            ),
{
    let ghost texts = inputs.deep_view();
    let mut clauses: Vec<All<Select>> = Vec::new();
    if inputs.len() == 0 {
        let always = All(Vec::new());
        assert(always@ =~= Seq::<SelectView>::empty());
        clauses.push(always);
        let any = Any(clauses);
        assert(any@ =~= clauses_of(texts));
        return Ok(any);
    }
    let mut i: usize = 0;
    while i < inputs.len()
        invariant
            i <= inputs.len(),
            texts == inputs.deep_view(),
            clauses@.len() == i,
            forall|j: int| 0 <= j < i ==> #[trigger] is_clause(clauses@[j]@, texts[j]),
        decreases inputs.len() - i,
    {
        let input = inputs[i].as_str();
        assert(input@ == texts[i as int]);
        match parse(input) {
            Ok(all) => {
                assert(is_clause(all@, texts[i as int]));
                clauses.push(all);
            },
            Err(e) => {
                proof {
                    assert forall|j: int| 0 <= j < i implies parse_spec(
                        #[trigger] texts[j],
                    ) is Ok by {
                        assert(is_clause(clauses@[j]@, texts[j]));
                    }
                    assert(first_failure(texts, i as int));
                    assert(!all_parse(texts));
                }
                return Err(e.into_error());
            },
        }
        i += 1;
    }
    let any = Any(clauses);
    proof {
        assert forall|j: int| 0 <= j < any@.len() implies #[trigger] is_clause(
            any@[j],
            texts[j],
        ) by {
            assert(is_clause(clauses@[j]@, texts[j]));
        }
        assert forall|j: int| 0 <= j < texts.len() implies parse_spec(
            #[trigger] texts[j],
        ) is Ok by {
            assert(is_clause(clauses@[j]@, texts[j]));
        }
        assert(any@.len() == texts.len());
        assert forall|j: int| 0 <= j < any@.len() implies any@[j] == clauses_of(texts)[j] by {
            assert(is_clause(any@[j], texts[j]));
        }
        assert(any@ =~= clauses_of(texts));
    }
    Ok(any)
}

} // verus!
