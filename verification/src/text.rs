//! Small helpers on strings and their characters.

use vstd::prelude::*;
use vstd::utf8::{encode_scalar, encode_utf8};

verus! {

/// `str`'s `==`: two strings are equal exactly when they hold the same
/// characters in the same order.
pub assume_specification[ <str as PartialEq>::eq ](a: &str, b: &str) -> (r: bool)
    ensures
        r == (a@ == b@),
;

/// Whether `v` is a Unicode scalar value: a code point that is no
/// surrogate.
pub open spec fn is_scalar(v: int) -> bool {
    (0 <= v < 0xD800) || (0xE000 <= v <= 0x10FFFF)
}

/// `char::from_u32`: the character with the code point `i`, and nothing
/// where `i` is no Unicode scalar value.
pub assume_specification[ char::from_u32 ](i: u32) -> (r: Option<char>)
    ensures
        match r {
            Some(c) => c as u32 == i,
            None => !is_scalar(i as int),
        },
;

/// The characters of `s`, in order.
pub fn chars_of(s: &str) -> (v: Vec<char>)
    ensures
        v@ == s@,
{
    broadcast use vstd::string::group_string_axioms;

    let mut v: Vec<char> = Vec::new();
    let chars = s.chars();
    for c in it: chars
        invariant
            it.seq() == s@,
            v@ == it.seq().take(it.index()),
    {
        v.push(c);
    }
    assert(v@ == s@.take(s@.len() as int));
    v
}

/// `String::push`: the string holds what it held, then `c`.
#[verifier::external_body]
pub(crate) fn push_char(s: &mut String, c: char)
    ensures
        final(s)@ == old(s)@.push(c),
{
    s.push(c)
}

/// The string made of the characters `chars[from..to]`.
pub(crate) fn string_of(chars: &Vec<char>, from: usize, to: usize) -> (s: String)
    requires
        from <= to <= chars@.len(),
    ensures
        s@ == chars@.subrange(from as int, to as int),
{
    let mut s = String::new();
    let mut i: usize = from;
    while i < to
        invariant
            from <= i <= to <= chars@.len(),
            s@ == chars@.subrange(from as int, i as int),
        decreases to - i,
    {
        push_char(&mut s, chars[i]);
        i += 1;
        assert(chars@.subrange(from as int, i as int) == chars@.subrange(
            from as int,
            i as int - 1,
        ).push(chars@[i as int - 1]));
    }
    s
}

/// The number of bytes that the character `c` takes in UTF-8.
pub open spec fn utf8_width(c: char) -> int {
    encode_scalar(c as u32).len() as int
}

/// The place of position `i` of `s` counted in bytes: the number of bytes
/// that the characters before it take in UTF-8.
pub open spec fn byte_offset(s: Seq<char>, i: int) -> int {
    encode_utf8(s.subrange(0, i)).len() as int
}

/// The bytes of two texts put together are the bytes of the first, then
/// those of the second.
pub proof fn lemma_encode_concat(a: Seq<char>, b: Seq<char>)
    ensures
        encode_utf8(a + b) == encode_utf8(a) + encode_utf8(b),
    decreases a.len(),
{
    if a.len() == 0 {
        assert(a + b == b);
    } else {
        lemma_encode_concat(a.drop_first(), b);
        assert((a + b).drop_first() == a.drop_first() + b);
    }
}

/// A position lies as many bytes after the one before it as the character
/// between them takes, and no position lies past the bytes of the text.
pub proof fn lemma_byte_offset(s: Seq<char>, i: int)
    requires
        0 <= i <= s.len(),
    ensures
        byte_offset(s, 0) == 0,
        i < s.len() ==> byte_offset(s, i + 1) == byte_offset(s, i) + utf8_width(s[i]),
        0 <= byte_offset(s, i) <= byte_offset(s, s.len() as int) == encode_utf8(s).len(),
{
    assert(s.subrange(0, 0) == Seq::<char>::empty());
    assert(s.subrange(0, s.len() as int) == s);
    lemma_encode_concat(s.subrange(0, i), s.subrange(i, s.len() as int));
    assert(s.subrange(0, i) + s.subrange(i, s.len() as int) == s);
    if i < s.len() {
        let one = seq![s[i]];
        lemma_encode_concat(s.subrange(0, i), one);
        assert(s.subrange(0, i) + one == s.subrange(0, i + 1));
        assert(one.drop_first() == Seq::<char>::empty());
        assert(encode_utf8(one) == encode_scalar(s[i] as u32) + encode_utf8(one.drop_first()));
    }
}

/// Returns the number of bytes that `c` takes in UTF-8: from one to four.
pub fn width_of(c: char) -> (n: usize)
    ensures
        n == utf8_width(c),
        1 <= n <= 4,
{
    let v: u32 = c as u32;
    if v <= 0x7F {
        1
    } else if v <= 0x7FF {
        2
    } else if v <= 0xFFFF {
        3
    } else {
        4
    }
}

/// Whether `s` starts with `prefix`.
pub open spec fn has_prefix(s: Seq<char>, prefix: Seq<char>) -> bool {
    prefix.len() <= s.len() && s.subrange(0, prefix.len() as int) == prefix
}

} // verus!
