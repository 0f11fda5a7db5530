//! Texts: decoding of bytes, and search.
use vstd::prelude::*;
use vstd::utf8::*;

verus! {

/// The text that `String::from_utf8_lossy` makes of a byte string.
pub uninterp spec fn lossy_text(bytes: Seq<u8>) -> Seq<char>;

/// Decodes bytes with `String::from_utf8_lossy`, which puts replacement characters in the place
/// of what is not UTF-8. The result depends on the bytes alone, and where they are UTF-8 it is
/// what they encode. Which replacement characters stand where is left unsaid.
#[verifier::external_body]
pub(crate) fn decode_lossy(bytes: &[u8]) -> (text: String)
    ensures
        text@ == lossy_text(bytes@),
        valid_utf8(bytes@) ==> text@ == decode_utf8(bytes@),
{
    String::from_utf8_lossy(bytes).into_owned()
}

/// Decodes bytes with `std::str::from_utf8`, which gives a text exactly where the bytes are
/// UTF-8: the one that they encode.
#[verifier::external_body]
pub(crate) fn decode_strict(bytes: &[u8]) -> (text: Option<&str>)
    ensures
        text is Some <==> valid_utf8(bytes@),
        text matches Some(t) ==> t@ == decode_utf8(bytes@),
{
    std::str::from_utf8(bytes).ok()
}

/// `String::push` appends one character.
pub assume_specification[ String::push ](s: &mut String, c: char)
    ensures
        final(s)@ == old(s)@.push(c),
;

/// Encoding is done character by character, so a text may be split anywhere before it is
/// encoded.
pub proof fn encode_concat(a: Seq<char>, b: Seq<char>)
    ensures
        encode_utf8(a + b) == encode_utf8(a) + encode_utf8(b),
    decreases a.len(),
{
    if a.len() == 0 {
        assert(a + b =~= b);
        assert(encode_utf8(a) + encode_utf8(b) =~= encode_utf8(b));
    } else {
        let rest = a.drop_first();
        encode_concat(rest, b);
        assert((a + b).drop_first() =~= rest + b);
        assert(encode_utf8(a + b) =~= encode_utf8(a) + encode_utf8(b));
    }
}

/// Different texts have different encodings.
pub proof fn encode_injective(a: Seq<char>, b: Seq<char>)
    requires
        encode_utf8(a) == encode_utf8(b),
    ensures
        a == b,
{
    encode_utf8_decode_utf8(a);
    encode_utf8_decode_utf8(b);
}

/// No character is encoded in less than a byte.
pub proof fn encode_no_shorter(text: Seq<char>)
    ensures
        encode_utf8(text).len() >= text.len(),
    decreases text.len(),
{
    if text.len() > 0 {
        encode_no_shorter(text.drop_first());
    }
}

/// The byte of a slash stands in an encoding only for a slash.
proof fn scalar_slash(c: char)
    ensures
        encode_scalar(c as u32).contains(0x2f) <==> c == '/',
{
    let v = c as u32;
    let bytes = encode_scalar(v);
    assert(v <= 0x7f ==> (v & 0x7F) as u8 == v) by (bit_vector);
    assert(0xC0 | ((v >> 6) & 0x1F) as u8 >= 0x80) by (bit_vector);
    assert(0xE0 | ((v >> 12) & 0x0F) as u8 >= 0x80) by (bit_vector);
    assert(0xF0 | ((v >> 18) & 0x7) as u8 >= 0x80) by (bit_vector);
    assert(0x80 | (v & 0x3F) as u8 >= 0x80) by (bit_vector);
    assert(0x80 | ((v >> 6) & 0x3F) as u8 >= 0x80) by (bit_vector);
    assert(0x80 | ((v >> 12) & 0x3F) as u8 >= 0x80) by (bit_vector);
    if c == '/' {
        assert(bytes[0] == 0x2f);
    }
}

/// An encoding holds the byte of a slash exactly where the text holds a slash.
pub proof fn encode_slash(text: Seq<char>)
    ensures
        encode_utf8(text).contains(0x2f) <==> text.contains('/'),
    decreases text.len(),
{
    if text.len() > 0 {
        let (head, tail) = (encode_scalar(text[0] as u32), text.drop_first());
        let bytes = encode_utf8(text);
        scalar_slash(text[0]);
        encode_slash(tail);
        assert(bytes == head + encode_utf8(tail));
        if bytes.contains(0x2f) {
            let i = choose|i: int| 0 <= i < bytes.len() && bytes[i] == 0x2f;
            if i < head.len() {
                assert(head[i] == 0x2f);
                assert(text[0] == '/');
            } else {
                assert(encode_utf8(tail)[i - head.len()] == 0x2f);
                let k = choose|k: int| 0 <= k < tail.len() && tail[k] == '/';
                assert(text[k + 1] == '/');
            }
        }
        if text.contains('/') {
            let k = choose|k: int| 0 <= k < text.len() && text[k] == '/';
            if k == 0 {
                let i = choose|i: int| 0 <= i < head.len() && head[i] == 0x2f;
                assert(bytes[i] == 0x2f);
            } else {
                assert(tail[k - 1] == '/');
                let rest = encode_utf8(tail);
                let i = choose|i: int| 0 <= i < rest.len() && rest[i] == 0x2f;
                assert(bytes[i + head.len()] == 0x2f);
            }
        }
    }
}

/// Whether `needle` stands in `text` from place `i` on.
pub open spec fn occurs_at(text: Seq<char>, needle: Seq<char>, i: int) -> bool {
    0 <= i && i + needle.len() <= text.len() && text.subrange(i, i + needle.len()) == needle
}

/// Whether `needle` stands anywhere in `text`.
pub open spec fn occurs(text: Seq<char>, needle: Seq<char>) -> bool {
    exists|i: int| occurs_at(text, needle, i)
}

/// The characters of a text.
pub(crate) fn characters(text: &str) -> (chars: Vec<char>)
    ensures
        chars@ == text@,
{
    let mut chars: Vec<char> = Vec::new();
    for c in it: text.chars()
        invariant
            it.seq() == text@,
            chars@ == text@.take(it.index() as int),
    {
        chars.push(c);
        assert(chars@ =~= text@.take(it.index() as int + 1));
    }
    assert(text@.take(text@.len() as int) =~= text@);
    chars
}

/// Whether `needle` stands anywhere in `text`.
pub fn contains_text(text: &str, needle: &str) -> (found: bool)
    ensures
        found == occurs(text@, needle@),
{
    let hay = characters(text);
    let pin = characters(needle);
    if pin.len() > hay.len() {
        return false;
    }
    let last: usize = hay.len() - pin.len();
    let mut i: usize = 0;
    loop
        invariant
            hay@ == text@,
            pin@ == needle@,
            last + pin@.len() == hay@.len(),
            i <= last,
            forall|k: int| 0 <= k < i ==> !occurs_at(hay@, pin@, k),
        decreases last - i,
    {
        let mut j: usize = 0;
        while j < pin.len() && hay[i + j] == pin[j]
            invariant
                i + pin@.len() <= hay.len(),
                j <= pin@.len(),
                forall|k: int| 0 <= k < j ==> hay@[i + k] == pin@[k],
            decreases pin@.len() - j,
        {
            j = j + 1;
        }
        if j == pin.len() {
            assert(hay@.subrange(i as int, i + pin@.len()) =~= pin@);
            assert(occurs_at(text@, needle@, i as int));
            return true;
        }
        assert(!occurs_at(hay@, pin@, i as int)) by {
            if occurs_at(hay@, pin@, i as int) {
                assert(hay@.subrange(i as int, i + pin@.len())[j as int] == pin@[j as int]);
            }
        }
        if i == last {
            return false;
        }
        i = i + 1;
    }
}

/// A text is found in another exactly where the other can be split around it.
pub proof fn found_texts_stand_between(text: Seq<char>, needle: Seq<char>)
    ensures
        occurs(text, needle) <==> exists|before: Seq<char>, after: Seq<char>|
            text == #[trigger] (before + needle + after),
{
    if occurs(text, needle) {
        let i = choose|i: int| occurs_at(text, needle, i);
        let (before, after) = (text.take(i), text.skip(i + needle.len()));
        assert(text =~= before + text.subrange(i, i + needle.len()) + after);
        assert(text == before + needle + after);
    }
    if exists|before: Seq<char>, after: Seq<char>| text == #[trigger] (before + needle + after) {
        let (before, after) = choose|before: Seq<char>, after: Seq<char>|
            text == #[trigger] (before + needle + after);
        let i = before.len() as int;
        assert(text.subrange(i, i + needle.len()) =~= needle);
        assert(occurs_at(text, needle, i));
    }
}

} // verus!
