//! Paths of the host as text.
//!
//! A path of the host is a sequence of bytes without zero bytes, most often the UTF-8
//! encoding of a text, which then stands for the path. In the text of any other path
//! the bytes that no text has stand between two zero characters at its start, each as
//! the character with its number; what follows is text again.

use vstd::prelude::*;
use vstd::string::*;
use vstd::utf8::{decode_utf8, encode_utf8, valid_utf8};

use crate::path::{absolute, entry_path, joined_path};
use crate::text::{chars_of, first_at, halves, split_once};

verus! {

/// `String::push` adds a character at the end of a text.
pub assume_specification[ String::push ](text: &mut String, c: char)
    ensures
        final(text)@ == old(text)@.push(c),
;

/// Calls `String::from_utf8`: the text that the bytes encode, when they are the UTF-8
/// encoding of one.
#[verifier::external_body]
fn utf8_text(bytes: Vec<u8>) -> (text: Option<String>)
    ensures
        match text {
            Some(text) => valid_utf8(bytes@) && text@ == decode_utf8(bytes@),
            None => !valid_utf8(bytes@),
        },
{
    String::from_utf8(bytes).ok()
}

/// Bytes as `String::from_utf8_lossy` shows them: as text, with replacement characters
/// for what is not UTF-8.
pub uninterp spec fn lossy_text(bytes: Seq<u8>) -> Seq<char>;

/// Calls `String::from_utf8_lossy`. Which bytes share a replacement character takes long
/// to say, so the result has a name: it depends on the bytes alone.
#[verifier::external_body]
fn text_lossily(bytes: &Vec<u8>) -> (r: String)
    ensures
        r@ == lossy_text(bytes@),
{
    String::from_utf8_lossy(bytes).into_owned()
}

/// The characters with the numbers of some bytes.
pub open spec fn byte_chars(bytes: Seq<u8>) -> Seq<char> {
    bytes.map_values(|b: u8| b as char)
}

/// The bytes with the numbers of some characters.
pub open spec fn char_bytes(chars: Seq<char>) -> Seq<u8> {
    chars.map_values(|c: char| c as u8)
}

/// How many bytes there are up to the last one that is not ASCII.
pub open spec fn odd_len(bytes: Seq<u8>) -> nat
    decreases bytes.len(),
{
    if bytes.len() == 0 {
        0
    } else if bytes.last() >= 0x80 {
        bytes.len()
    } else {
        odd_len(bytes.drop_last())
    }
}

/// The text of a path of the host.
pub open spec fn path_text(bytes: Seq<u8>) -> Seq<char> {
    if valid_utf8(bytes) {
        let text = decode_utf8(bytes);
        if text.len() > 0 && text[0] == '\0' {
            seq!['\0', '\0'] + text
        } else {
            text
        }
    } else {
        let odd = odd_len(bytes) as int;
        seq!['\0'] + byte_chars(bytes.take(odd)) + seq!['\0'] + byte_chars(bytes.skip(odd))
    }
}

/// The two parts of the text of a path that is not a text: what stands between the zero
/// characters, and what follows.
pub open spec fn odd_parts(path: Seq<char>) -> Option<(Seq<char>, Seq<char>)> {
    if path.len() > 0 && path[0] == '\0' {
        halves(path.skip(1), '\0')
    } else {
        None
    }
}

/// The path of the host that a text stands for.
pub open spec fn path_bytes(path: Seq<char>) -> Seq<u8> {
    match odd_parts(path) {
        Some((odd, rest)) => char_bytes(odd) + encode_utf8(rest),
        None => encode_utf8(path),
    }
}

/// A path as messages show it.
pub open spec fn shown_path(path: Seq<char>) -> Seq<char> {
    if odd_parts(path) is Some {
        lossy_text(path_bytes(path))
    } else {
        path
    }
}

/// Whether a sequence of bytes can be the path of something: a path has no zero bytes.
/// Texts are paths too, though those with zero characters lead nowhere.
pub open spec fn is_path(bytes: Seq<u8>) -> bool {
    valid_utf8(bytes) || !bytes.contains(0)
}

/// The path of the entry `name` in a directory of the host.
pub open spec fn entry_bytes(dir: Seq<u8>, name: Seq<u8>) -> Seq<u8> {
    if dir.len() == 0 || dir.last() == 0x2f {
        dir + name
    } else {
        dir.push(0x2f) + name
    }
}

proof fn odd_len_is_odd(bytes: Seq<u8>)
    ensures
        odd_len(bytes) <= bytes.len(),
        odd_len(bytes) > 0 ==> bytes[odd_len(bytes) - 1] >= 0x80,
        forall|i: int| odd_len(bytes) <= i < bytes.len() ==> (#[trigger] bytes[i]) < 0x80,
    decreases bytes.len(),
{
    if bytes.len() > 0 && bytes.last() < 0x80 {
        odd_len_is_odd(bytes.drop_last());
        assert forall|i: int| odd_len(bytes) <= i < bytes.len() implies (#[trigger] bytes[i])
            < 0x80 by {
            if i < bytes.len() - 1 {
                assert(bytes.drop_last()[i] == bytes[i]);
            }
        }
    }
}

proof fn encoding_of_parts(a: Seq<char>, b: Seq<char>)
    ensures
        encode_utf8(a + b) == encode_utf8(a) + encode_utf8(b),
    decreases a.len(),
{
    if a.len() == 0 {
        assert(a + b =~= b);
    } else {
        assert((a + b).drop_first() =~= a.drop_first() + b);
        encoding_of_parts(a.drop_first(), b);
        assert(encode_utf8(a + b) =~= encode_utf8(a) + encode_utf8(b));
    }
}

proof fn ascii_is_its_own_encoding(bytes: Seq<u8>)
    requires
        forall|i: int| 0 <= i < bytes.len() ==> (#[trigger] bytes[i]) < 0x80,
    ensures
        encode_utf8(byte_chars(bytes)) == bytes,
{
    let chars = byte_chars(bytes);
    assert(vstd::utf8::is_ascii_chars(chars)) by {
        assert forall|i: int| 0 <= i < chars.len() implies '\0' <= #[trigger] chars[i]
            <= '\u{7f}' by {
            assert(bytes[i] < 0x80);
        }
    }
    vstd::utf8::is_ascii_chars_encode_utf8(chars);
    assert forall|i: int| 0 <= i < bytes.len() implies #[trigger] encode_utf8(chars)[i]
        == bytes[i] by {
        assert(chars[i] as u8 == encode_utf8(chars)[i]);
        assert(chars[i] == bytes[i] as char);
    }
    assert(encode_utf8(chars) =~= bytes);
}

proof fn chars_of_bytes_return(bytes: Seq<u8>)
    ensures
        char_bytes(byte_chars(bytes)) == bytes,
{
    assert(char_bytes(byte_chars(bytes)) =~= bytes);
}

/// The parts of a text that starts with the odd part `odd`.
proof fn parts_are_found(odd: Seq<char>, rest: Seq<char>)
    requires
        !odd.contains('\0'),
    ensures
        odd_parts(seq!['\0'] + odd + seq!['\0'] + rest) == Some((odd, rest)),
{
    let path = seq!['\0'] + odd + seq!['\0'] + rest;
    let tail = path.skip(1);
    let n = odd.len() as int;
    assert(tail =~= odd + seq!['\0'] + rest);
    assert(tail[n] == '\0');
    assert forall|j: int| 0 <= j < n implies tail[j] != '\0' by {
        assert(tail[j] == odd[j]);
        assert(odd.contains(odd[j]));
    }
    assert(first_at(tail, '\0', n));
    let at = choose|at: int| first_at(tail, '\0', at);
    assert(first_at(tail, '\0', at));
    assert(at == n);
    assert(tail.take(n) =~= odd);
    assert(tail.skip(n + 1) =~= rest);
}

/// A text that is added to the text of a path adds its encoding to the path.
pub proof fn text_extends_a_path(bytes: Seq<u8>, text: Seq<char>)
    requires
        is_path(bytes),
        bytes.len() > 0 || text.len() == 0 || text[0] != '\0',
    ensures
        path_bytes(path_text(bytes) + text) == bytes + encode_utf8(text),
{
    let path = path_text(bytes);
    if valid_utf8(bytes) {
        let plain = decode_utf8(bytes);
        vstd::utf8::decode_utf8_encode_utf8(bytes);
        encoding_of_parts(plain, text);
        if plain.len() > 0 && plain[0] == '\0' {
            let none: Seq<char> = Seq::empty();
            parts_are_found(none, plain + text);
            assert(seq!['\0'] + none + seq!['\0'] + (plain + text) =~= path + text);
            assert(char_bytes(none) + encode_utf8(plain + text) =~= encode_utf8(plain + text));
        } else if plain.len() == 0 {
            assert(encode_utf8(plain).len() == 0);
            assert(path + text =~= text);
            assert(bytes.len() == 0);
        } else {
            assert((path + text)[0] == plain[0]);
        }
    } else {
        let n = odd_len(bytes) as int;
        odd_len_is_odd(bytes);
        let odd = byte_chars(bytes.take(n));
        let rest = byte_chars(bytes.skip(n));
        assert forall|i: int| 0 <= i < odd.len() implies odd[i] != '\0' by {
            assert(odd[i] == bytes[i] as char);
            assert(bytes.contains(bytes[i]));
        }
        parts_are_found(odd, rest + text);
        assert(seq!['\0'] + odd + seq!['\0'] + (rest + text) =~= path + text);
        chars_of_bytes_return(bytes.take(n));
        assert forall|i: int| 0 <= i < bytes.skip(n).len() implies (#[trigger] bytes.skip(n)[i])
            < 0x80 by {
            assert(bytes[i + n] < 0x80);
        }
        ascii_is_its_own_encoding(bytes.skip(n));
        encoding_of_parts(rest, text);
        assert(bytes.take(n) + (bytes.skip(n) + encode_utf8(text)) =~= bytes + encode_utf8(text));
    }
}

/// The text of a path stands for that path.
pub proof fn path_text_stands_for_the_path(bytes: Seq<u8>)
    requires
        is_path(bytes),
    ensures
        path_bytes(path_text(bytes)) == bytes,
{
    let none: Seq<char> = Seq::empty();
    text_extends_a_path(bytes, none);
    assert(path_text(bytes) + none =~= path_text(bytes));
    assert(encode_utf8(none) =~= Seq::empty());
    assert(bytes + encode_utf8(none) =~= bytes);
}

/// A path that is the encoding of a text has that text, and the text stands for it;
/// texts that start with a zero character, which no path does, are excepted.
pub proof fn text_is_its_own_path(text: Seq<char>)
    requires
        text.len() > 0 ==> text[0] != '\0',
    ensures
        path_text(encode_utf8(text)) == text,
        path_bytes(text) == encode_utf8(text),
        shown_path(text) == text,
{
    vstd::utf8::encode_utf8_valid_utf8(text);
    vstd::utf8::encode_utf8_decode_utf8(text);
}

proof fn last_byte_of_a_scalar(c: char)
    ensures
        vstd::utf8::encode_scalar(c as u32).len() > 0,
        (vstd::utf8::encode_scalar(c as u32).last() == 0x2f) == (c == '/'),
{
    let u = c as u32;
    vstd::utf8::char_is_scalar(c);
    assert(vstd::utf8::last_continuation_byte(u) >= 0x80) by (bit_vector);
    if vstd::utf8::has_width_1_encoding(u) {
        assert(vstd::utf8::leading_byte_width_1(u) == u as u8) by (bit_vector)
            requires
                vstd::utf8::has_width_1_encoding(u),
        ;
    }
}

proof fn last_byte_of_a_text(text: Seq<char>)
    ensures
        (encode_utf8(text).len() == 0) == (text.len() == 0),
        text.len() > 0 ==> (encode_utf8(text).last() == 0x2f) == (text.last() == '/'),
{
    if text.len() > 0 {
        let last = seq![text.last()];
        assert(text =~= text.drop_last() + last);
        encoding_of_parts(text.drop_last(), last);
        last_byte_of_a_scalar(text.last());
        reveal_with_fuel(encode_utf8, 2);
        assert(last.drop_first().len() == 0);
        assert(encode_utf8(last) =~= vstd::utf8::encode_scalar(last[0] as u32));
    }
}

proof fn path_ends_as_its_text(bytes: Seq<u8>)
    requires
        is_path(bytes),
    ensures
        (path_text(bytes).len() == 0) == (bytes.len() == 0),
        bytes.len() > 0 ==> (path_text(bytes).last() == '/') == (bytes.last() == 0x2f),
{
    if valid_utf8(bytes) {
        vstd::utf8::decode_utf8_encode_utf8(bytes);
        last_byte_of_a_text(decode_utf8(bytes));
    } else {
        odd_len_is_odd(bytes);
        let n = odd_len(bytes) as int;
        if n < bytes.len() {
            assert(path_text(bytes).last() == byte_chars(bytes.skip(n)).last());
            assert(byte_chars(bytes.skip(n)).last() == bytes.last() as char);
        } else {
            assert(path_text(bytes).last() == '\0');
            assert(bytes.last() >= 0x80);
        }
    }
}

/// The text of a directory with the name of an entry stands for the entry of the
/// directory, whether or not the path of the directory is a text.
pub proof fn entry_stands_for_its_path(dir: Seq<u8>, name: Seq<char>)
    requires
        is_path(dir),
        dir.len() > 0 || name.len() == 0 || name[0] != '\0',
    ensures
        path_bytes(entry_path(path_text(dir), name)) == entry_bytes(dir, encode_utf8(name)),
        !absolute(name) ==> path_bytes(joined_path(path_text(dir), name)) == entry_bytes(
            dir,
            encode_utf8(name),
        ),
{
    let text = path_text(dir);
    path_ends_as_its_text(dir);
    if dir.len() == 0 || dir.last() == 0x2f {
        text_extends_a_path(dir, name);
    } else {
        let more = seq!['/'] + name;
        text_extends_a_path(dir, more);
        encoding_of_parts(seq!['/'], name);
        let slash: Seq<u8> = seq![0x2f];
        assert(byte_chars(slash) =~= seq!['/']);
        ascii_is_its_own_encoding(slash);
        reveal_strlit("/");
        assert(text + more =~= entry_path(text, name));
        assert(dir + (slash + encode_utf8(name)) =~= dir.push(0x2f) + encode_utf8(name));
    }
}

/// The text of a path of the host.
pub fn path_text_of(bytes: &Vec<u8>) -> (r: String)
    ensures
        r@ == path_text(bytes@),
{
    if let Some(text) = utf8_text(bytes.clone()) {
        if text.as_str().unicode_len() > 0 && text.as_str().get_char(0) == '\0' {
            let mut r = "\0\0".to_owned();
            proof {
                reveal_strlit("\0\0");
                assert("\0\0"@ =~= seq!['\0', '\0']);
            }
            r.append(text.as_str());
            return r;
        }
        return text;
    }
    let mut odd: usize = bytes.len();
    assert(bytes@.take(odd as int) =~= bytes@);
    while odd > 0 && bytes[odd - 1] < 0x80
        invariant
            odd <= bytes@.len(),
            odd_len(bytes@) == odd_len(bytes@.take(odd as int)),
        decreases odd,
    {
        assert(bytes@.take(odd as int).drop_last() =~= bytes@.take(odd - 1));
        odd = odd - 1;
    }
    let mut r = String::new();
    r.push('\0');
    push_bytes(&mut r, bytes, 0, odd);
    r.push('\0');
    push_bytes(&mut r, bytes, odd, bytes.len());
    assert(r@ =~= path_text(bytes@));
    r
}

fn push_bytes(text: &mut String, bytes: &Vec<u8>, from: usize, to: usize)
    requires
        from <= to <= bytes@.len(),
    ensures
        final(text)@ == old(text)@ + byte_chars(bytes@.subrange(from as int, to as int)),
{
    let mut i: usize = from;
    while i < to
        invariant
            from <= i <= to <= bytes@.len(),
            text@ == old(text)@ + byte_chars(bytes@.subrange(from as int, i as int)),
        decreases to - i,
    {
        text.push(bytes[i] as char);
        i = i + 1;
        assert(text@ =~= old(text)@ + byte_chars(bytes@.subrange(from as int, i as int)));
    }
}

fn parts_of(path: &str) -> (r: Option<(&str, &str)>)
    ensures
        match r {
            Some((odd, rest)) => odd_parts(path@) == Some((odd@, rest@)),
            None => odd_parts(path@) is None,
        },
{
    let len = path.unicode_len();
    if len > 0 && path.get_char(0) == '\0' {
        let tail = path.substring_char(1, len);
        assert(tail@ =~= path@.skip(1));
        split_once(tail, '\0')
    } else {
        None
    }
}

/// The path of the host that a text stands for.
pub fn path_bytes_of(path: &str) -> (r: Vec<u8>)
    ensures
        r@ == path_bytes(path@),
{
    match parts_of(path) {
        None => path.as_bytes_vec(),
        Some((odd, rest)) => {
            let chars = chars_of(odd);
            let mut r: Vec<u8> = Vec::new();
            let mut i: usize = 0;
            while i < chars.len()
                invariant
                    i <= chars@.len(),
                    chars@ == odd@,
                    r@ == char_bytes(odd@.take(i as int)),
                decreases chars@.len() - i,
            {
                r.push(chars[i] as u8);
                i = i + 1;
                assert(r@ =~= char_bytes(odd@.take(i as int)));
            }
            assert(odd@.take(i as int) =~= odd@);
            let mut tail = rest.as_bytes_vec();
            r.append(&mut tail);
            r
        },
    }
}

/// A path as messages show it.
pub fn path_shown(path: &str) -> (r: String)
    ensures
        r@ == shown_path(path@),
{
    if parts_of(path).is_some() {
        text_lossily(&path_bytes_of(path))
    } else {
        path.to_owned()
    }
}

} // verus!
