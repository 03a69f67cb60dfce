//! Text and its bytes.

use std::string::FromUtf8Error;
use vstd::prelude::*;
use vstd::utf8::*;

use crate::error::ChatError;

verus! {

/// The error of a failed conversion from bytes, as an opaque type.
#[verifier::external_type_specification]
#[verifier::external_body]
pub struct ExFromUtf8Error(FromUtf8Error);

/// The bytes that a failed conversion was given, which its error holds.
pub uninterp spec fn held_bytes(e: FromUtf8Error) -> Seq<u8>;

/// How the error of a failed conversion puts what is wrong with the bytes.
pub uninterp spec fn complaint(bytes: Seq<u8>) -> Seq<char>;

/// Specifies `String::from_utf8`: it succeeds on valid UTF-8 alone, and then gives the
/// characters that the bytes encode. Otherwise the error holds the bytes.
pub assume_specification[ String::from_utf8 ](bytes: Vec<u8>) -> (r: Result<String, FromUtf8Error>)
    ensures
        match r {
            Ok(text) => valid_utf8(bytes@) && text@ == decode_utf8(bytes@),
            Err(e) => !valid_utf8(bytes@) && held_bytes(e) == bytes@,
        },
;

/// Calls `to_string` on a `FromUtf8Error`: the text tells where the bytes stop being UTF-8, and
/// depends on the bytes alone. How it is worded is not stated.
#[verifier::external_body]
pub(crate) fn complaint_text(e: &FromUtf8Error) -> (r: String)
    ensures
        r@ == complaint(held_bytes(*e)),
{
    e.to_string()
}

/// Whether the error reports that these bytes are no text, and why.
pub open spec fn reports_not_utf8(e: ChatError, bytes: Seq<u8>) -> bool {
    e matches ChatError::NotUtf8(reason) && reason@ == complaint(bytes)
}

/// Whether Unicode gives the character its property `White_Space`.
pub open spec fn white_space(c: char) -> bool {
    let u = c as u32;
    ||| 0x0009 <= u <= 0x000d
    ||| u == 0x0020
    ||| u == 0x0085
    ||| u == 0x00a0
    ||| u == 0x1680
    ||| 0x2000 <= u <= 0x200a
    ||| u == 0x2028
    ||| u == 0x2029
    ||| u == 0x202f
    ||| u == 0x205f
    ||| u == 0x3000
}

/// Specifies `char::is_whitespace`: it says whether the character has the property
/// `White_Space`, whose members are those of [`white_space`].
pub assume_specification[ char::is_whitespace ](c: char) -> (r: bool)
    ensures
        r == white_space(c),
;

/// A text without the white space at its two ends.
pub open spec fn trimmed(text: Seq<char>) -> Seq<char>
    decreases text.len(),
{
    if text.len() == 0 {
        text
    } else if white_space(text[0]) {
        trimmed(text.drop_first())
    } else if white_space(text.last()) {
        trimmed(text.drop_last())
    } else {
        text
    }
}

/// How many bytes the text takes.
pub open spec fn byte_len(text: Seq<char>) -> nat {
    encode_utf8(text).len()
}

/// The decimal digit of a number below ten.
pub open spec fn digit(d: nat) -> char {
    (('0' as nat) + d) as char
}

/// A number in decimal, without leading zeros.
pub open spec fn decimal(n: nat) -> Seq<char>
    decreases n,
{
    if n < 10 {
        seq![digit(n)]
    } else {
        decimal(n / 10).push(digit(n % 10))
    }
}

/// The text that the bytes encode.
pub fn decode(bytes: Vec<u8>) -> (r: Result<String, ChatError>)
    ensures
        match r {
            Ok(text) => valid_utf8(bytes@) && text@ == decode_utf8(bytes@),
            Err(e) => !valid_utf8(bytes@) && reports_not_utf8(e, bytes@),
        },
{
    match String::from_utf8(bytes) {
        Ok(text) => Ok(text),
        Err(e) => Err(ChatError::NotUtf8(complaint_text(&e))),
    }
}

/// Whether the character occurs in the text.
pub fn contains_char(text: &str, c: char) -> (r: bool)
    ensures
        r == text@.contains(c),
{
    for d in it: text.chars()
        invariant
            it.seq() == text@,
            forall|i: int| 0 <= i < it.index() ==> text@[i] != c,
    {
        if d == c {
            assert(text@[it.index() as int] == c);
            return true;
        }
    }
    false
}

/// The text without the white space at its two ends.
pub fn trim(text: &str) -> (r: String)
    ensures
        r@ == trimmed(text@),
{
    let mut start: usize = 0;
    let mut end: usize = text.unicode_len();
    assert(text@.subrange(0, end as int) == text@);
    while start < end && text.get_char(start).is_whitespace()
        invariant
            start <= end == text@.len(),
            trimmed(text@) == trimmed(text@.subrange(start as int, end as int)),
        decreases end - start,
    {
        assert(text@.subrange(start as int, end as int).drop_first() == text@.subrange(
            start + 1,
            end as int,
        ));
        start = start + 1;
    }
    while start < end && text.get_char(end - 1).is_whitespace()
        invariant
            start <= end <= text@.len(),
            start < end ==> !white_space(text@[start as int]),
            trimmed(text@) == trimmed(text@.subrange(start as int, end as int)),
        decreases end - start,
    {
        assert(text@.subrange(start as int, end as int).drop_last() == text@.subrange(
            start as int,
            end - 1,
        ));
        end = end - 1;
    }
    text.substring_char(start, end).to_owned()
}

fn digit_text(d: usize) -> (r: &'static str)
    requires
        d < 10,
    ensures
        r@ == seq![digit(d as nat)],
{
    proof {
        reveal_strlit("0");
        reveal_strlit("1");
        reveal_strlit("2");
        reveal_strlit("3");
        reveal_strlit("4");
        reveal_strlit("5");
        reveal_strlit("6");
        reveal_strlit("7");
        reveal_strlit("8");
        reveal_strlit("9");
    }
    if d == 0 {
        "0"
    } else if d == 1 {
        "1"
    } else if d == 2 {
        "2"
    } else if d == 3 {
        "3"
    } else if d == 4 {
        "4"
    } else if d == 5 {
        "5"
    } else if d == 6 {
        "6"
    } else if d == 7 {
        "7"
    } else if d == 8 {
        "8"
    } else {
        "9"
    }
}

/// Writes a number in decimal.
pub fn decimal_text(n: usize) -> (r: String)
    ensures
        r@ == decimal(n as nat),
    decreases n,
{
    if n < 10 {
        digit_text(n).to_owned()
    } else {
        let mut text = decimal_text(n / 10);
        text.append(digit_text(n % 10));
        text
    }
}

/// The bytes of a text that is put together are the bytes of its parts.
pub proof fn encode_concat(a: Seq<char>, b: Seq<char>)
    ensures
        encode_utf8(a + b) == encode_utf8(a) + encode_utf8(b),
    decreases a.len(),
{
    if a.len() == 0 {
        assert(a + b == b);
        assert(encode_utf8(a) + encode_utf8(b) == encode_utf8(b));
    } else {
        encode_concat(a.drop_first(), b);
        assert((a + b).drop_first() == a.drop_first() + b);
    }
}

/// The bytes of a single character: an ASCII character is its own byte, and any other
/// character has no ASCII byte at all.
pub proof fn scalar_bytes(c: char)
    ensures
        c <= '\u{7f}' ==> encode_scalar(c as u32) == seq![c as u8] && c as u8 == c as nat,
        c > '\u{7f}' ==> forall|i: int|
            0 <= i < encode_scalar(c as u32).len() ==> #[trigger] encode_scalar(c as u32)[i] >= 0x80,
        1 <= encode_scalar(c as u32).len() <= 4,
{
    let u = c as u32;
    assert(u <= 0x7f ==> leading_byte_width_1(u) == u as u8) by (bit_vector);
    assert(leading_byte_width_2(u) >= 0x80 && leading_byte_width_3(u) >= 0x80
        && leading_byte_width_4(u) >= 0x80 && last_continuation_byte(u) >= 0x80
        && second_last_continuation_byte(u) >= 0x80 && third_last_continuation_byte(u) >= 0x80)
        by (bit_vector);
}

/// Two ASCII characters with the same byte are the same.
pub proof fn ascii_byte_determines_char(a: char, b: char)
    requires
        a <= '\u{7f}',
        b <= '\u{7f}',
    ensures
        a as u8 == b as u8 <==> a == b,
{
}

/// An ASCII character occurs in a text exactly when its byte occurs in the bytes of the
/// text.
pub proof fn ascii_occurs_in_bytes(text: Seq<char>, c: char)
    requires
        c <= '\u{7f}',
    ensures
        text.contains(c) <==> encode_utf8(text).contains(c as u8),
    decreases text.len(),
{
    let bytes = encode_utf8(text);
    if text.len() > 0 {
        let head = encode_scalar(text[0] as u32);
        let tail = text.drop_first();
        ascii_occurs_in_bytes(tail, c);
        scalar_bytes(text[0]);
        assert(bytes == head + encode_utf8(tail));
        if text.contains(c) {
            if text[0] == c {
                assert(bytes[0] == c as u8);
            } else {
                assert(tail[text.index_of(c) - 1] == c);
                let k = encode_utf8(tail).index_of(c as u8);
                assert(bytes[head.len() + k] == c as u8);
            }
        }
        if bytes.contains(c as u8) {
            let k = bytes.index_of(c as u8);
            if k < head.len() {
                assert(encode_scalar(text[0] as u32)[k] == c as u8);
                ascii_byte_determines_char(text[0], c);
            } else {
                assert(encode_utf8(tail)[k - head.len()] == c as u8);
                let j = tail.index_of(c);
                assert(text[j + 1] == c);
            }
        }
    }
}

/// A character occurs in a text that is put together exactly when it occurs in a part.
pub proof fn concat_holds(a: Seq<char>, b: Seq<char>, d: char)
    ensures
        (a + b).contains(d) <==> a.contains(d) || b.contains(d),
{
    let all = a + b;
    if a.contains(d) {
        assert(all[a.index_of(d)] == d);
    }
    if b.contains(d) {
        assert(all[a.len() + b.index_of(d)] == d);
    }
    if all.contains(d) {
        let k = all.index_of(d);
        if k < a.len() {
            assert(a[k] == d);
        } else {
            assert(b[k - a.len()] == d);
        }
    }
}

/// The 25 characters that count as white space.
pub proof fn white_space_has_25_members(c: char)
    ensures
        white_space(c) <==> c == '\u{9}' || c == '\u{a}' || c == '\u{b}' || c == '\u{c}' || c
            == '\u{d}' || c == '\u{20}' || c == '\u{85}' || c == '\u{a0}' || c == '\u{1680}' || c
            == '\u{2000}' || c == '\u{2001}' || c == '\u{2002}' || c == '\u{2003}' || c == '\u{2004}'
            || c == '\u{2005}' || c == '\u{2006}' || c == '\u{2007}' || c == '\u{2008}' || c
            == '\u{2009}' || c == '\u{200a}' || c == '\u{2028}' || c == '\u{2029}' || c == '\u{202f}'
            || c == '\u{205f}' || c == '\u{3000}',
{
}

proof fn trimmed_part(text: Seq<char>) -> (ends: (int, int))
    ensures
        0 <= ends.0 <= ends.1 <= text.len(),
        trimmed(text) == text.subrange(ends.0, ends.1),
        forall|k: int| 0 <= k < ends.0 || ends.1 <= k < text.len() ==> white_space(
            #[trigger] text[k],
        ),
        trimmed(text).len() > 0 ==> !white_space(trimmed(text)[0]) && !white_space(
            trimmed(text).last(),
        ),
    decreases text.len(),
{
    if text.len() == 0 {
        assert(text == text.subrange(0, 0));
        (0, 0)
    } else if white_space(text[0]) {
        let rest = text.drop_first();
        let (i, j) = trimmed_part(rest);
        assert(rest.subrange(i, j) == text.subrange(i + 1, j + 1));
        assert forall|k: int| 0 <= k < i + 1 || j + 1 <= k < text.len() implies white_space(
            #[trigger] text[k],
        ) by {
            if k > 0 {
                assert(rest[k - 1] == text[k]);
            }
        }
        (i + 1, j + 1)
    } else if white_space(text.last()) {
        let rest = text.drop_last();
        let (i, j) = trimmed_part(rest);
        assert(rest.subrange(i, j) == text.subrange(i, j));
        assert forall|k: int| 0 <= k < i || j <= k < text.len() implies white_space(
            #[trigger] text[k],
        ) by {
            if k < rest.len() {
                assert(rest[k] == text[k]);
            }
        }
        (i, j)
    } else {
        assert(text == text.subrange(0, text.len() as int));
        (0, text.len() as int)
    }
}

/// Trimming takes nothing but white space off the two ends, and takes all of it.
pub proof fn trimming_takes_all_white_space_and_nothing_else(text: Seq<char>)
    ensures
        exists|i: int, j: int|
            {
                &&& 0 <= i <= j <= text.len()
                &&& trimmed(text) == #[trigger] text.subrange(i, j)
                &&& forall|k: int| 0 <= k < i || j <= k < text.len() ==> white_space(
                    #[trigger] text[k],
                )
            },
        trimmed(text).len() > 0 ==> !white_space(trimmed(text)[0]) && !white_space(
            trimmed(text).last(),
        ),
{
    let (i, j) = trimmed_part(text);
    assert(trimmed(text) == text.subrange(i, j));
}

/// How many bytes a text takes: one to four for each character, by its number.
pub proof fn bytes_add_up(a: Seq<char>, b: Seq<char>, c: char)
    ensures
        byte_len(Seq::empty()) == 0,
        byte_len(a + b) == byte_len(a) + byte_len(b),
        byte_len(seq![c]) == if c <= '\u{7f}' {
            1nat
        } else if c <= '\u{7ff}' {
            2
        } else if c <= '\u{ffff}' {
            3
        } else {
            4
        },
{
    encode_concat(a, b);
    let one = seq![c];
    assert(one.drop_first() == Seq::<char>::empty());
    assert(encode_utf8(one) == encode_scalar(c as u32) + encode_utf8(Seq::<char>::empty()));
}

/// A number below ten is written as one digit, and any other as its tenth followed by the digit
/// that remains.
pub proof fn decimal_is_positional(n: nat, d: nat)
    requires
        d < 10,
    ensures
        decimal(d) == seq![((48 + d) as char)],
        n > 0 ==> decimal(10 * n + d) == decimal(n) + seq![((48 + d) as char)],
{
    if n > 0 {
        assert((10 * n + d) / 10 == n && (10 * n + d) % 10 == d);
        assert(decimal(10 * n + d) == decimal(n).push(digit(d)));
    }
}

/// The error tells that the bytes are no text exactly when it carries the complaint about them.
pub proof fn error_tells_the_complaint(e: ChatError, bytes: Seq<u8>)
    ensures
        reports_not_utf8(e, bytes) <==> {
            &&& e matches ChatError::NotUtf8(reason)
            &&& reason@ == complaint(bytes)
        },
{
}

} // verus!
