//! The JSON text of a message.

use vstd::prelude::*;
use vstd::utf8::*;

use crate::error::ChatError;

verus! {

/// The error of the JSON library, as an opaque type.
#[verifier::external_type_specification]
#[verifier::external_body]
pub struct ExJsonError(serde_json::Error);

/// A hexadecimal digit, in lower case.
pub open spec fn hex_digit(d: int) -> char {
    if d < 10 {
        (('0' as int) + d) as char
    } else {
        (('a' as int) + d - 10) as char
    }
}

/// How a character is written inside a JSON string.
pub open spec fn escaped_char(c: char) -> Seq<char> {
    if c == '"' {
        seq!['\\', '"']
    } else if c == '\\' {
        seq!['\\', '\\']
    } else if c == '\u{8}' {
        seq!['\\', 'b']
    } else if c == '\t' {
        seq!['\\', 't']
    } else if c == '\n' {
        seq!['\\', 'n']
    } else if c == '\u{c}' {
        seq!['\\', 'f']
    } else if c == '\r' {
        seq!['\\', 'r']
    } else if c <= '\u{1f}' {
        seq!['\\', 'u', '0', '0', hex_digit(c as int / 16), hex_digit(c as int % 16)]
    } else {
        seq![c]
    }
}

/// How a text is written inside a JSON string.
pub open spec fn escaped(text: Seq<char>) -> Seq<char>
    decreases text.len(),
{
    if text.len() == 0 {
        seq![]
    } else {
        escaped_char(text[0]) + escaped(text.drop_first())
    }
}

/// The JSON string that stands for a text.
pub open spec fn json_string(text: Seq<char>) -> Seq<char> {
    seq!['"'] + escaped(text) + seq!['"']
}

/// The JSON object of a message: the username first, then the content, without blanks.
pub open spec fn json_message(username: Seq<char>, content: Seq<char>) -> Seq<char> {
    "{\"username\":"@ + json_string(username) + ",\"content\":"@ + json_string(content) + "}"@
}

/// Calls `serde_json::to_string` on a `str`: it always succeeds, and writes the text between
/// quotes, with the quote, the backslash and the control characters below the blank escaped
/// and every other character as it is.
#[verifier::external_body]
pub(crate) fn json_string_text(text: &str) -> (r: Result<String, serde_json::Error>)
    ensures
        r is Ok,
        r->Ok_0@ == json_string(text@),
{
    serde_json::to_string(text)
}

/// Writes the JSON object of a message.
pub fn message_text(username: &str, content: &str) -> (r: Result<String, ChatError>)
    ensures
        r is Ok,
        r->Ok_0@ == json_message(username@, content@),
{
    let name = match json_string_text(username) {
        Ok(text) => text,
        Err(e) => return Err(ChatError::Json(e.to_string())),
    };
    let words = match json_string_text(content) {
        Ok(text) => text,
        Err(e) => return Err(ChatError::Json(e.to_string())),
    };
    let mut text = "{\"username\":".to_owned();
    text.append(name.as_str());
    text.append(",\"content\":");
    text.append(words.as_str());
    text.append("}");
    Ok(text)
}

proof fn hex_digit_determines(a: int, b: int)
    requires
        0 <= a < 16,
        0 <= b < 16,
        hex_digit(a) == hex_digit(b),
    ensures
        a == b,
{
    assert(hex_digit(a) as int == if a < 10 { 48 + a } else { 87 + a });
    assert(hex_digit(b) as int == if b < 10 { 48 + b } else { 87 + b });
}

proof fn escaped_char_is_prefix_free(a: char, b: char, x: Seq<char>, y: Seq<char>)
    requires
        escaped_char(a) + x == escaped_char(b) + y,
    ensures
        a == b,
        x == y,
{
    let u = escaped_char(a);
    let v = escaped_char(b);
    let all = u + x;
    assert(all[0] == u[0] && all[0] == v[0]);
    if u.len() > 1 && v.len() > 1 {
        assert(all[1] == u[1] && all[1] == v[1]);
        if u[1] == 'u' {
            assert(all[4] == u[4] && all[4] == v[4]);
            assert(all[5] == u[5] && all[5] == v[5]);
            hex_digit_determines(a as int / 16, b as int / 16);
            hex_digit_determines(a as int % 16, b as int % 16);
            assert(a as int == b as int);
        }
    }
    assert(x == all.skip(u.len() as int));
    assert(y == all.skip(v.len() as int));
}

proof fn escaped_char_begins(c: char)
    ensures
        escaped_char(c).len() > 0,
        escaped_char(c)[0] != '"',
{
}

proof fn quoted_is_prefix_free(s: Seq<char>, t: Seq<char>, x: Seq<char>, y: Seq<char>)
    requires
        escaped(s) + seq!['"'] + x == escaped(t) + seq!['"'] + y,
    ensures
        s == t,
        x == y,
    decreases s.len(),
{
    let all = escaped(s) + seq!['"'] + x;
    if s.len() == 0 && t.len() == 0 {
        assert(x == all.skip(1));
        assert(y == all.skip(1));
    } else if s.len() == 0 {
        escaped_char_begins(t[0]);
        assert(all[0] == '"');
        assert(all[0] == escaped_char(t[0])[0]);
    } else if t.len() == 0 {
        escaped_char_begins(s[0]);
        assert(all[0] == '"');
        assert(all[0] == escaped_char(s[0])[0]);
    } else {
        let s1 = s.drop_first();
        let t1 = t.drop_first();
        assert(all == escaped_char(s[0]) + (escaped(s1) + seq!['"'] + x));
        assert(all == escaped_char(t[0]) + (escaped(t1) + seq!['"'] + y));
        escaped_char_is_prefix_free(
            s[0],
            t[0],
            escaped(s1) + seq!['"'] + x,
            escaped(t1) + seq!['"'] + y,
        );
        quoted_is_prefix_free(s1, t1, x, y);
        assert(s == seq![s[0]] + s1);
        assert(t == seq![t[0]] + t1);
    }
}

/// Two messages with the same JSON are the same message: writing a message loses nothing.
pub proof fn json_determines_message(
    username1: Seq<char>,
    content1: Seq<char>,
    username2: Seq<char>,
    content2: Seq<char>,
)
    requires
        json_message(username1, content1) == json_message(username2, content2),
    ensures
        username1 == username2,
        content1 == content2,
{
    let open = "{\"username\":"@ + seq!['"'];
    let quote = seq!['"'];
    let rest1 = ",\"content\":"@ + json_string(content1) + "}"@;
    let rest2 = ",\"content\":"@ + json_string(content2) + "}"@;
    let all = json_message(username1, content1);
    assert(all == open + (escaped(username1) + quote + rest1));
    assert(all == open + (escaped(username2) + quote + rest2));
    assert(escaped(username1) + quote + rest1 == all.skip(open.len() as int));
    assert(escaped(username2) + quote + rest2 == all.skip(open.len() as int));
    quoted_is_prefix_free(username1, username2, rest1, rest2);
    let middle = ",\"content\":"@ + seq!['"'];
    assert(rest1 == middle + (escaped(content1) + quote + "}"@));
    assert(rest2 == middle + (escaped(content2) + quote + "}"@));
    assert(escaped(content1) + quote + "}"@ == rest1.skip(middle.len() as int));
    assert(escaped(content2) + quote + "}"@ == rest2.skip(middle.len() as int));
    quoted_is_prefix_free(content1, content2, "}"@, "}"@);
}

proof fn escaped_char_holds(c: char, d: char)
    requires
        d == '|' || d == '`',
    ensures
        escaped_char(c).contains(d) <==> c == d,
{
    let e = escaped_char(c);
    if c == d {
        assert(e[0] == d);
    }
    if e.contains(d) {
        let k = e.index_of(d);
        assert(e[k] == d);
        if e.len() == 6 {
            assert(hex_digit(c as int / 16) as int <= 102);
            assert(hex_digit(c as int % 16) as int <= 102);
            assert(hex_digit(c as int / 16) as int != 96);
            assert(hex_digit(c as int % 16) as int != 96);
        }
    }
}

proof fn escaped_holds(text: Seq<char>, d: char)
    requires
        d == '|' || d == '`',
    ensures
        escaped(text).contains(d) <==> text.contains(d),
    decreases text.len(),
{
    if text.len() > 0 {
        let head = escaped_char(text[0]);
        let rest = text.drop_first();
        escaped_char_holds(text[0], d);
        escaped_holds(rest, d);
        crate::text::concat_holds(head, escaped(rest), d);
        crate::text::concat_holds(seq![text[0]], rest, d);
        assert(seq![text[0]] + rest == text);
        assert(seq![text[0]].contains(d) <==> text[0] == d) by {
            assert(seq![text[0]][0] == text[0]);
        }
    }
}

proof fn json_string_holds(text: Seq<char>, d: char)
    requires
        d == '|' || d == '`',
    ensures
        json_string(text).contains(d) <==> text.contains(d),
{
    escaped_holds(text, d);
    crate::text::concat_holds(seq!['"'], escaped(text), d);
    crate::text::concat_holds(seq!['"'] + escaped(text), seq!['"'], d);
}

/// A delimiter of the pakkets occurs in the JSON of a message exactly when it occurs in the
/// username or in the content.
pub proof fn json_holds_delimiter_of_message(username: Seq<char>, content: Seq<char>, d: char)
    requires
        d == '|' || d == '`',
    ensures
        json_message(username, content).contains(d) <==> username.contains(d) || content.contains(d),
{
    reveal_strlit("{\"username\":");
    reveal_strlit(",\"content\":");
    reveal_strlit("}");
    let a = "{\"username\":"@;
    let b = json_string(username);
    let c = ",\"content\":"@;
    let e = json_string(content);
    json_string_holds(username, d);
    json_string_holds(content, d);
    crate::text::concat_holds(a, b, d);
    crate::text::concat_holds(a + b, c, d);
    crate::text::concat_holds(a + b + c, e, d);
    crate::text::concat_holds(a + b + c + e, "}"@, d);
}

proof fn escaped_char_bytes(c: char)
    ensures
        crate::text::byte_len(escaped_char(c)) <= 6 * encode_scalar(c as u32).len(),
{
    let e = escaped_char(c);
    crate::text::scalar_bytes(c);
    if e.len() > 1 {
        assert(is_ascii_chars(e));
        is_ascii_chars_encode_utf8(e);
    } else {
        assert(e == seq![c]);
        assert(e.drop_first() == Seq::<char>::empty());
        assert(encode_utf8(e) == encode_scalar(c as u32) + encode_utf8(Seq::<char>::empty()));
    }
}

proof fn escaped_bytes(text: Seq<char>)
    ensures
        crate::text::byte_len(escaped(text)) <= 6 * crate::text::byte_len(text),
    decreases text.len(),
{
    if text.len() > 0 {
        let rest = text.drop_first();
        escaped_bytes(rest);
        escaped_char_bytes(text[0]);
        crate::text::encode_concat(escaped_char(text[0]), escaped(rest));
    }
}

proof fn json_string_bytes(text: Seq<char>)
    ensures
        crate::text::byte_len(json_string(text)) <= 6 * crate::text::byte_len(text) + 2,
{
    let quote = seq!['"'];
    escaped_bytes(text);
    assert(is_ascii_chars(quote));
    is_ascii_chars_encode_utf8(quote);
    crate::text::encode_concat(quote, escaped(text));
    crate::text::encode_concat(quote + escaped(text), quote);
}

/// The JSON of a message takes at most six bytes for each byte of the username and of the
/// content, and 28 bytes more.
pub proof fn json_is_bounded(username: Seq<char>, content: Seq<char>)
    ensures
        crate::text::byte_len(json_message(username, content)) <= 6 * crate::text::byte_len(username)
            + 6 * crate::text::byte_len(content) + 28,
{
    reveal_strlit("{\"username\":");
    reveal_strlit(",\"content\":");
    reveal_strlit("}");
    let a = "{\"username\":"@;
    let b = json_string(username);
    let c = ",\"content\":"@;
    let d = json_string(content);
    let e = "}"@;
    json_string_bytes(username);
    json_string_bytes(content);
    assert(is_ascii_chars(a));
    assert(is_ascii_chars(c));
    assert(is_ascii_chars(e));
    is_ascii_chars_encode_utf8(a);
    is_ascii_chars_encode_utf8(c);
    is_ascii_chars_encode_utf8(e);
    crate::text::encode_concat(a, b);
    crate::text::encode_concat(a + b, c);
    crate::text::encode_concat(a + b + c, d);
    crate::text::encode_concat(a + b + c + d, e);
}

/// How a single character is written: a quote, a backslash and five control characters behind a
/// backslash, the other control characters below the blank by their number, and every other
/// character as it is.
pub proof fn character_is_written(c: char)
    ensures
        c == '"' ==> escaped(seq![c]) == seq!['\\', '"'],
        c == '\\' ==> escaped(seq![c]) == seq!['\\', '\\'],
        c == '\u{8}' ==> escaped(seq![c]) == seq!['\\', 'b'],
        c == '\u{9}' ==> escaped(seq![c]) == seq!['\\', 't'],
        c == '\u{a}' ==> escaped(seq![c]) == seq!['\\', 'n'],
        c == '\u{c}' ==> escaped(seq![c]) == seq!['\\', 'f'],
        c == '\u{d}' ==> escaped(seq![c]) == seq!['\\', 'r'],
        c <= '\u{7}' || c == '\u{b}' || '\u{e}' <= c <= '\u{1f}' ==> {
            &&& escaped(seq![c]).len() == 6
            &&& escaped(seq![c]).take(4) == seq!['\\', 'u', '0', '0']
            &&& escaped(seq![c])[4] == if c <= '\u{f}' {
                '0'
            } else {
                '1'
            }
            &&& escaped(seq![c])[5] == seq![
                '0',
                '1',
                '2',
                '3',
                '4',
                '5',
                '6',
                '7',
                '8',
                '9',
                'a',
                'b',
                'c',
                'd',
                'e',
                'f',
            ][c as int % 16]
        },
        '\u{20}' <= c && c != '"' && c != '\\' ==> escaped(seq![c]) == seq![c],
{
    let one = seq![c];
    assert(one.drop_first() == Seq::<char>::empty());
    assert(escaped(one.drop_first()) == Seq::<char>::empty());
    assert(escaped(one) == escaped_char(c));
}

/// A text is written character by character.
pub proof fn text_is_written_character_by_character(a: Seq<char>, b: Seq<char>)
    ensures
        escaped(Seq::empty()) == Seq::<char>::empty(),
        escaped(a + b) == escaped(a) + escaped(b),
    decreases a.len(),
{
    if a.len() == 0 {
        assert(a + b == b);
        assert(escaped(a) + escaped(b) == escaped(b));
    } else {
        text_is_written_character_by_character(a.drop_first(), b);
        assert((a + b).drop_first() == a.drop_first() + b);
        assert((a + b)[0] == a[0]);
    }
}

/// A JSON string is the written text between two quotes.
pub proof fn json_string_is_quoted(text: Seq<char>)
    ensures
        json_string(text).len() == escaped(text).len() + 2,
        json_string(text)[0] == '"',
        json_string(text).last() == '"',
        forall|i: int|
            0 <= i < escaped(text).len() ==> json_string(text)[i + 1] == #[trigger] escaped(text)[i],
{
}

/// In the JSON of a message the username is what stands under the key `username`, and the
/// content what stands under the key `content`. Nothing else stands there.
pub proof fn json_holds_each_part_under_its_key(username: Seq<char>, content: Seq<char>)
    ensures
        ({
            let json = json_message(username, content);
            let name = json_string(username);
            let words = json_string(content);
            &&& json.len() == 12 + name.len() + 11 + words.len() + 1
            &&& json.take(12) == "{\"username\":"@
            &&& json.skip(12).take(name.len() as int) == name
            &&& json.skip(12int + name.len()).take(11) == ",\"content\":"@
            &&& json.skip(23int + name.len()).take(words.len() as int) == words
            &&& json.last() == '}'
        }),
{
    reveal_strlit("{\"username\":");
    reveal_strlit(",\"content\":");
    reveal_strlit("}");
}

} // verus!
