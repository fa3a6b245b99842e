//! Quoted segments: from the text between two quotes to what it stands for.

use crate::filters::scanner::{digit_val, digit_value, is_quote_char, is_quote_token};
use crate::text::{chars_of, is_scalar, push_char};
use vstd::prelude::*;

verus! {

/// The number that the `n` characters of `s` from `i` on spell in the given
/// base, where all of them lie before `end` and are digits of that base.
pub open spec fn number_at(s: Seq<char>, i: int, end: int, base: int, n: nat) -> Option<int>
    decreases n,
{
    if n == 0 {
        Some(0)
    } else if i + n > end {
        None
    } else {
        match number_at(s, i, end, base, (n - 1) as nat) {
            Some(v) => if digit_value(s[i + n - 1]) < base {
                Some(v * base + digit_value(s[i + n - 1]))
            } else {
                None
            },
            None => None,
        }
    }
}

/// The character that a backslash and `c` stand for, where `c` is a letter
/// that names a control character or is the backslash itself.
pub open spec fn control_escape(c: char) -> Option<char> {
    if c == 'a' {
        Some('\u{7}')
    } else if c == 'b' {
        Some('\u{8}')
    } else if c == 'f' {
        Some('\u{c}')
    } else if c == 'n' {
        Some('\n')
    } else if c == 'r' {
        Some('\r')
    } else if c == 't' {
        Some('\t')
    } else if c == 'v' {
        Some('\u{b}')
    } else if c == '\\' {
        Some('\\')
    } else {
        None
    }
}

/// The character with the code point `v`, if `v` is a scalar value that is
/// not above `max`.
pub open spec fn coded(v: Option<int>, max: int, next: int) -> Option<(char, int)> {
    match v {
        Some(v) => if v <= max && is_scalar(v) {
            Some((v as char, next))
        } else {
            None
        },
        None => None,
    }
}

/// The character that the escape at `i` stands for, and where the escape
/// ends. `s[i]` is the backslash, and the escape has to end before `end`.
///
/// The escapes are: `\a \b \f \n \r \t \v \\`, the quote character after a
/// backslash, three octal digits for a code point up to 255, `\x` with two
/// hex digits, `\u` with four and `\U` with eight, for a Unicode scalar
/// value.
pub open spec fn escape_at(s: Seq<char>, i: int, end: int, quote: char) -> Option<(char, int)> {
    if i + 1 >= end {
        None
    } else {
        let e = s[i + 1];
        if e == quote {
            Some((quote, i + 2))
        } else if control_escape(e) is Some {
            Some((control_escape(e)->0, i + 2))
        } else if '0' <= e && e <= '7' {
            coded(number_at(s, i + 1, end, 8, 3), 255, i + 4)
        } else if e == 'x' {
            coded(number_at(s, i + 2, end, 16, 2), 255, i + 4)
        } else if e == 'u' {
            coded(number_at(s, i + 2, end, 16, 4), 0x10FFFF, i + 6)
        } else if e == 'U' {
            coded(number_at(s, i + 2, end, 16, 8), 0x10FFFF, i + 10)
        } else {
            None
        }
    }
}

/// What the characters `s[i..end]` between two quotes stand for, after
/// `done`, which is what the characters before them stand for: each escape
/// gives one character and every other character gives itself. A bare quote
/// character, a line end or an escape that is none make the whole thing
/// stand for nothing.
pub open spec fn unescape_from(s: Seq<char>, i: int, end: int, quote: char, done: Seq<char>) -> Option<
    Seq<char>,
>
    decreases end - i,
{
    if i >= end {
        Some(done)
    } else if s[i] == quote || s[i] == '\n' {
        None
    } else if s[i] == '\\' {
        match escape_at(s, i, end, quote) {
            Some((c, next)) => if i < next <= end {
                unescape_from(s, next, end, quote, done.push(c))
            } else {
                None
            },
            None => None,
        }
    } else {
        unescape_from(s, i + 1, end, quote, done.push(s[i]))
    }
}

/// What a quoted segment stands for. The segment begins and ends with the
/// same quote character, one of `"`, `/` and `|`.
pub open spec fn unquote_spec(s: Seq<char>) -> Option<Seq<char>> {
    if s.len() >= 2 && is_quote_char(s[0]) && s[s.len() - 1] == s[0] {
        unescape_from(s, 1, s.len() - 1, s[0], Seq::empty())
    } else {
        None
    }
}

/// Reads `n` digits of the given base from `chars[i..end]`.
fn number(chars: &Vec<char>, i: usize, end: usize, base: u64, n: usize) -> (r: Option<u64>)
    requires
        end <= chars@.len(),
        i <= end,
        2 <= base <= 16,
        n <= 8,
    ensures
        match r {
            Some(v) => i + n <= end && number_at(
                chars@,
                i as int,
                end as int,
                base as int,
                n as nat,
            ) == Some(v as int),
            None => number_at(chars@, i as int, end as int, base as int, n as nat) is None,
        },
{
    if n > end - i {
        proof {
            lemma_number_short(chars@, i as int, end as int, base as int, n as nat);
        }
        return None;
    }
    let mut v: u64 = 0;
    let mut k: usize = 0;
    while k < n
        invariant
            k <= n <= 8,
            i + n <= end <= chars@.len(),
            2 <= base <= 16,
            number_at(chars@, i as int, end as int, base as int, k as nat) == Some(v as int),
            v < pow16(k as nat),
        decreases n - k,
    {
        let d = digit_val(chars[i + k]);
        if d >= base {
            proof {
                lemma_number_bad_digit(
                    chars@,
                    i as int,
                    end as int,
                    base as int,
                    n as nat,
                    k as nat,
                );
            }
            return None;
        }
        proof {
            lemma_pow16(k as nat);
            assert(v * base + d < pow16((k + 1) as nat)) by (nonlinear_arith)
                requires
                    v < pow16(k as nat),
                    d < base,
                    base <= 16,
                    pow16((k + 1) as nat) == 16 * pow16(k as nat),
            ;
            lemma_pow16_bound((k + 1) as nat);
        }
        v = v * base + d;
        k += 1;
    }
    Some(v)
}

/// Sixteen to the power `k`.
pub open spec fn pow16(k: nat) -> nat
    decreases k,
{
    if k == 0 {
        1
    } else {
        16 * pow16((k - 1) as nat)
    }
}

proof fn lemma_pow16(k: nat)
    ensures
        pow16(k + 1) == 16 * pow16(k),
        pow16(k) >= 1,
    decreases k,
{
    if k > 0 {
        lemma_pow16((k - 1) as nat);
    }
}

proof fn lemma_pow16_bound(k: nat)
    requires
        k <= 8,
    ensures
        pow16(k) <= 0x1_0000_0000,
{
    reveal_with_fuel(pow16, 9);
}

/// Digits that do not all lie before the end spell no number.
proof fn lemma_number_short(s: Seq<char>, i: int, end: int, base: int, n: nat)
    requires
        i <= end,
        i + n > end,
    ensures
        number_at(s, i, end, base, n) is None,
{
}

/// A character that is no digit spoils every number that reaches over it.
proof fn lemma_number_bad_digit(s: Seq<char>, i: int, end: int, base: int, n: nat, k: nat)
    requires
        k < n,
        digit_value(s[i + k]) >= base,
    ensures
        number_at(s, i, end, base, n) is None,
    decreases n,
{
    if n > k + 1 {
        lemma_number_bad_digit(s, i, end, base, (n - 1) as nat, k);
    }
}

/// The character with the code point `v`, if `v` is a scalar value that is
/// not above `max`.
fn code_point(v: Option<u64>, max: u64, next: usize) -> (r: Option<(char, usize)>)
    requires
        max <= 0x10FFFF,
    ensures
        r == match coded(
            match v {
                Some(v) => Some(v as int),
                None => None,
            },
            max as int,
            next as int,
        ) {
            Some((c, n)) => Some((c, next)),
            None => None,
        },
{
    match v {
        Some(v) => {
            if v > max {
                return None;
            }
            let u = v as u32;
            match char::from_u32(u) {
                Some(c) => {
                    proof {
                        vstd::utf8::char_is_scalar(c);
                        vstd::utf8::char_u32_cast(c, u);
                        assert(u as int == v as int);
                        assert((v as int) as char == c);
                    }
                    Some((c, next))
                },
                None => None,
            }
        },
        None => None,
    }
}

/// Reads the escape at `i`.
fn escape(chars: &Vec<char>, i: usize, end: usize, quote: char) -> (r: Option<(char, usize)>)
    requires
        i < end <= chars@.len(),
    ensures
        match r {
            Some((c, next)) => escape_at(chars@, i as int, end as int, quote) == Some(
                (c, next as int),
            ),
            None => escape_at(chars@, i as int, end as int, quote) is None,
        },
{
    if end - i < 2 {
        return None;
    }
    let e = chars[i + 1];
    if e == quote {
        Some((quote, i + 2))
    } else if e == 'a' {
        Some(('\u{7}', i + 2))
    } else if e == 'b' {
        Some(('\u{8}', i + 2))
    } else if e == 'f' {
        Some(('\u{c}', i + 2))
    } else if e == 'n' {
        Some(('\n', i + 2))
    } else if e == 'r' {
        Some(('\r', i + 2))
    } else if e == 't' {
        Some(('\t', i + 2))
    } else if e == 'v' {
        Some(('\u{b}', i + 2))
    } else if e == '\\' {
        Some(('\\', i + 2))
    } else if '0' <= e && e <= '7' {
        match number(chars, i + 1, end, 8, 3) {
            Some(v) => code_point(Some(v), 255, i + 4),
            None => None,
        }
    } else if e == 'x' {
        match number(chars, i + 2, end, 16, 2) {
            Some(v) => code_point(Some(v), 255, i + 4),
            None => None,
        }
    } else if e == 'u' {
        match number(chars, i + 2, end, 16, 4) {
            Some(v) => code_point(Some(v), 0x10FFFF, i + 6),
            None => None,
        }
    } else if e == 'U' {
        match number(chars, i + 2, end, 16, 8) {
            Some(v) => code_point(Some(v), 0x10FFFF, i + 10),
            None => None,
        }
    } else {
        None
    }
}

/// Returns what the quoted segment `s` stands for: the text between the
/// quotes with each escape replaced by its character. Returns nothing
/// where `s` is no quoted segment or holds an escape that is none.
pub fn unquote(s: &str) -> (r: Option<String>)
    ensures
        match r {
            Some(v) => unquote_spec(s@) == Some(v@),
            None => unquote_spec(s@) is None,
        },
{
    let chars = chars_of(s);
    let n = chars.len();
    if n < 2 {
        return None;
    }
    let quote = chars[0];
    if !is_quote_token(quote) || chars[n - 1] != quote {
        return None;
    }
    let end = n - 1;
    let mut out = String::new();
    let mut i: usize = 1;
    while i < end
        invariant
            1 <= i <= end,
            end == n - 1,
            n == chars@.len(),
            chars@ == s@,
            quote == chars@[0],
            is_quote_char(quote),
            chars@[n - 1] == quote,
            unescape_from(chars@, 1, end as int, quote, Seq::empty()) == unescape_from(
                chars@,
                i as int,
                end as int,
                quote,
                out@,
            ),
        decreases end - i,
    {
        let c = chars[i];
        if c == quote || c == '\n' {
            return None;
        }
        if c == '\\' {
            match escape(&chars, i, end, quote) {
                Some((decoded, next)) => {
                    if next <= i || next > end {
                        return None;
                    }
                    push_char(&mut out, decoded);
                    i = next;
                },
                None => {
                    return None;
                },
            }
        } else {
            push_char(&mut out, c);
            i += 1;
        }
    }
    Some(out)
}

} // verus!
