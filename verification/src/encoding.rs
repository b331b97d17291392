//! The byte encodings that URLs and form bodies use: percent-encoding of
//! control characters, percent-decoding, and the form-urlencoded pairs of a
//! request body. The encodings are stated over the UTF-8 bytes of a string.
use vstd::prelude::*;
use vstd::utf8::{decode_utf8, encode_utf8, valid_utf8};

verus! {

/// The upper-case hexadecimal digit of `n` (below 16).
pub open spec fn hex_digit_upper(n: u8) -> char {
    if n < 10 {
        (48 + n) as char
    } else {
        (55 + n) as char
    }
}

/// `%` and the two upper-case hexadecimal digits of `b`.
pub open spec fn percent_byte(b: u8) -> Seq<char> {
    seq!['%', hex_digit_upper(b / 16), hex_digit_upper(b % 16)]
}

/// A byte of the C0 control set (0x00 to 0x1F and 0x7F) or outside ASCII.
pub open spec fn is_control_or_non_ascii(b: u8) -> bool {
    b < 0x20 || b >= 0x7F
}

/// One byte, percent-encoded against the control set.
pub open spec fn controls_encode_byte(b: u8) -> Seq<char> {
    if is_control_or_non_ascii(b) {
        percent_byte(b)
    } else {
        seq![b as char]
    }
}

/// Bytes, percent-encoded against the control set, one after the other.
pub open spec fn controls_encode_bytes(bytes: Seq<u8>) -> Seq<char>
    decreases bytes.len(),
{
    if bytes.len() == 0 {
        Seq::empty()
    } else {
        controls_encode_bytes(bytes.drop_last()) + controls_encode_byte(bytes.last())
    }
}

/// The UTF-8 bytes of `s`, percent-encoded against the control set.
pub open spec fn percent_encode_controls(s: Seq<char>) -> Seq<char> {
    controls_encode_bytes(encode_utf8(s))
}

/// A byte that form-urlencoding leaves as it is.
pub open spec fn form_unchanged(b: u8) -> bool {
    ||| b == 0x2A
    ||| b == 0x2D
    ||| b == 0x2E
    ||| 0x30 <= b <= 0x39
    ||| 0x41 <= b <= 0x5A
    ||| b == 0x5F
    ||| 0x61 <= b <= 0x7A
}

/// One byte, form-urlencoded: kept, a space as `+`, else percent-encoded.
pub open spec fn form_encode_byte(b: u8) -> Seq<char> {
    if form_unchanged(b) {
        seq![b as char]
    } else if b == 0x20 {
        seq!['+']
    } else {
        percent_byte(b)
    }
}

/// Bytes, form-urlencoded one after the other.
pub open spec fn form_encode_bytes(bytes: Seq<u8>) -> Seq<char>
    decreases bytes.len(),
{
    if bytes.len() == 0 {
        Seq::empty()
    } else {
        form_encode_bytes(bytes.drop_last()) + form_encode_byte(bytes.last())
    }
}

/// The UTF-8 bytes of `s`, form-urlencoded.
pub open spec fn form_urlencode(s: Seq<char>) -> Seq<char> {
    form_encode_bytes(encode_utf8(s))
}

/// One `name=value` pair of a form body.
pub open spec fn form_pair(p: (Seq<char>, Seq<char>)) -> Seq<char> {
    form_urlencode(p.0) + seq!['='] + form_urlencode(p.1)
}

/// A form body: the pairs, in order, joined by `&`.
pub open spec fn form_pairs(pairs: Seq<(Seq<char>, Seq<char>)>) -> Seq<char>
    decreases pairs.len(),
{
    if pairs.len() == 0 {
        Seq::empty()
    } else if pairs.len() == 1 {
        form_pair(pairs[0])
    } else {
        form_pairs(pairs.drop_last()) + seq!['&'] + form_pair(pairs.last())
    }
}

/// The views of a list of string pairs.
pub open spec fn pair_views(pairs: Seq<(String, String)>) -> Seq<(Seq<char>, Seq<char>)> {
    pairs.map_values(|p: (String, String)| (p.0@, p.1@))
}

/// The value of a hexadecimal digit, in either case.
pub open spec fn hex_value(b: u8) -> Option<u8> {
    if 0x30 <= b <= 0x39 {
        Some((b - 0x30) as u8)
    } else if 0x41 <= b <= 0x46 {
        Some((b - 0x37) as u8)
    } else if 0x61 <= b <= 0x66 {
        Some((b - 0x57) as u8)
    } else {
        None
    }
}

/// Percent-decoding: each `%` that two hexadecimal digits follow stands
/// for the byte they spell; every other byte stands for itself.
pub open spec fn percent_decode_bytes(bytes: Seq<u8>) -> Seq<u8>
    decreases bytes.len(),
{
    if bytes.len() == 0 {
        Seq::empty()
    } else if bytes[0] == 0x25 && bytes.len() >= 3 && hex_value(bytes[1]) is Some && hex_value(
        bytes[2],
    ) is Some {
        seq![(hex_value(bytes[1])->0 * 16 + hex_value(bytes[2])->0) as u8]
            + percent_decode_bytes(bytes.skip(3))
    } else {
        seq![bytes[0]] + percent_decode_bytes(bytes.skip(1))
    }
}

/// Whether the percent-decoded bytes of `s` are well-formed UTF-8.
pub open spec fn percent_decodes_to_text(s: Seq<char>) -> bool {
    valid_utf8(percent_decode_bytes(encode_utf8(s)))
}

/// The text that the percent-decoded bytes of `s` spell, where they are
/// well-formed UTF-8.
pub open spec fn percent_decoded_text(s: Seq<char>) -> Seq<char> {
    decode_utf8(percent_decode_bytes(encode_utf8(s)))
}

/// `percent_encoding::percent_encode` with the set `CONTROLS`, written out
/// with `to_string`. The crate encodes each byte of the C0 control set and
/// each non-ASCII byte as `%` and two upper-case hexadecimal digits (its
/// table `percent_encode_byte`), and keeps every other byte.
#[verifier::external_body]
pub(crate) fn percent_encode_controls_exec(s: &str) -> (r: String)
    ensures
        r@ == percent_encode_controls(s@),
{
    percent_encoding::percent_encode(s.as_bytes(), percent_encoding::CONTROLS).to_string()
}

/// `percent_encoding::percent_decode_str` followed by `decode_utf8`. The
/// crate decodes `%` with two hexadecimal digits into a byte and keeps every
/// other byte; `decode_utf8` fails exactly where the result is not
/// well-formed UTF-8, and else gives the text it spells.
#[verifier::external_body]
pub(crate) fn percent_decode_exec(s: &str) -> (r: Option<String>)
    ensures
        r is Some <==> percent_decodes_to_text(s@),
        r matches Some(t) ==> t@ == percent_decoded_text(s@),
{
    match percent_encoding::percent_decode_str(s).decode_utf8() {
        Ok(text) => Some(text.into_owned()),
        Err(_) => None,
    }
}

/// The error type of `serde_urlencoded`.
#[verifier::external_type_specification]
#[verifier::external_body]
pub struct ExUrlencodedError(serde_urlencoded::ser::Error);

/// `serde_urlencoded::to_string` on a list of string pairs. The crate
/// writes each pair as its form-urlencoded name, `=`, and its
/// form-urlencoded value (`form_urlencoded::byte_serialize` on the UTF-8
/// bytes), joined by `&`. A pair of strings is always accepted: the
/// serializer fails only on values that are not strings or pairs.
#[verifier::external_body]
pub(crate) fn urlencode_pairs(pairs: &Vec<(String, String)>) -> (r: Result<
    String,
    serde_urlencoded::ser::Error,
>)
    ensures
        r is Ok,
        r matches Ok(body) ==> body@ == form_pairs(pair_views(pairs@)),
{
    serde_urlencoded::to_string(pairs)
}

/// `String::push`: appends one character.
#[verifier::external_body]
pub(crate) fn push_char(s: &mut String, c: char)
    ensures
        final(s)@ == old(s)@.push(c),
{
    s.push(c)
}

/// Whether two texts are equal.
pub fn str_equal(a: &str, b: &str) -> (r: bool)
    ensures
        r == (a@ == b@),
{
    let a1 = String::from_str(a);
    let b1 = String::from_str(b);
    a1 == b1
}

/// Whether `prefix` begins `s`.
pub fn str_starts_with(s: &str, prefix: &str) -> (r: bool)
    ensures
        r == prefix@.is_prefix_of(s@),
{
    let n = s.unicode_len();
    let m = prefix.unicode_len();
    if m > n {
        return false;
    }
    let mut i: usize = 0;
    while i < m
        invariant
            m == prefix@.len(),
            n == s@.len(),
            m <= n,
            0 <= i <= m,
            forall|j: int| 0 <= j < i ==> prefix@[j] == s@[j],
        decreases m - i,
    {
        if s.get_char(i) != prefix.get_char(i) {
            return false;
        }
        i = i + 1;
    }
    true
}

/// Printable ASCII: from space to `~`.
pub open spec fn is_printable_ascii(s: Seq<char>) -> bool {
    forall|i: int| 0 <= i < s.len() ==> ' ' <= #[trigger] s[i] <= '~'
}

proof fn lemma_printable_bytes_unchanged(bytes: Seq<u8>, text: Seq<char>)
    requires
        bytes.len() == text.len(),
        forall|i: int| 0 <= i < bytes.len() ==> 0x20 <= #[trigger] bytes[i] < 0x7F,
        forall|i: int| 0 <= i < bytes.len() ==> #[trigger] text[i] == bytes[i] as char,
    ensures
        controls_encode_bytes(bytes) == text,
    decreases bytes.len(),
{
    if bytes.len() > 0 {
        lemma_printable_bytes_unchanged(bytes.drop_last(), text.drop_last());
        assert(text =~= text.drop_last().push(text.last()));
    }
}

/// Law: percent-encoding against the control set leaves printable ASCII
/// text as it is.
pub proof fn law_printable_ascii_unchanged(s: Seq<char>)
    requires
        is_printable_ascii(s),
    ensures
        percent_encode_controls(s) == s,
{
    assert(vstd::utf8::is_ascii_chars(s));
    vstd::utf8::is_ascii_chars_encode_utf8(s);
    let bytes = encode_utf8(s);
    assert forall|i: int| 0 <= i < bytes.len() implies 0x20 <= #[trigger] bytes[i] < 0x7F by {
        assert(s[i] as u8 == bytes[i]);
    }
    assert forall|i: int| 0 <= i < bytes.len() implies #[trigger] s[i] == bytes[i] as char by {
        assert(s[i] as u8 == bytes[i]);
        vstd::utf8::char_u32_cast(s[i], s[i] as u32);
    }
    lemma_printable_bytes_unchanged(bytes, s);
}

/// The byte of the upper-case hexadecimal digit of `n` (below 16).
pub open spec fn hex_digit_byte(n: u8) -> u8 {
    if n < 10 {
        (0x30 + n) as u8
    } else {
        (0x37 + n) as u8
    }
}

/// Every byte percent-encoded: `%` and its two upper-case digits.
pub open spec fn percent_encode_all_bytes(bytes: Seq<u8>) -> Seq<u8>
    decreases bytes.len(),
{
    if bytes.len() == 0 {
        Seq::empty()
    } else {
        seq![0x25u8, hex_digit_byte(bytes[0] / 16), hex_digit_byte(bytes[0] % 16)]
            + percent_encode_all_bytes(bytes.drop_first())
    }
}

/// Bytes read as characters, one for one.
pub open spec fn bytes_as_chars(bytes: Seq<u8>) -> Seq<char> {
    bytes.map_values(|b: u8| b as char)
}

/// The text `v` with every byte of its UTF-8 encoding percent-encoded.
pub open spec fn percent_encode_all(v: Seq<char>) -> Seq<char> {
    bytes_as_chars(percent_encode_all_bytes(encode_utf8(v)))
}

proof fn lemma_hex_value_of_digit(n: u8)
    requires
        n < 16,
    ensures
        hex_value(hex_digit_byte(n)) == Some(n),
{
}

proof fn lemma_encode_all_bytes_shape(bytes: Seq<u8>)
    ensures
        percent_encode_all_bytes(bytes).len() == 3 * bytes.len(),
        forall|i: int|
            0 <= i < percent_encode_all_bytes(bytes).len() ==> {
                let b = #[trigger] percent_encode_all_bytes(bytes)[i];
                b == 0x25 || (0x30 <= b <= 0x39) || (0x41 <= b <= 0x46)
            },
    decreases bytes.len(),
{
    if bytes.len() > 0 {
        lemma_encode_all_bytes_shape(bytes.drop_first());
        let head = seq![0x25u8, hex_digit_byte(bytes[0] / 16), hex_digit_byte(bytes[0] % 16)];
        let rest = percent_encode_all_bytes(bytes.drop_first());
        assert forall|i: int| 0 <= i < percent_encode_all_bytes(bytes).len() implies {
            let b = #[trigger] percent_encode_all_bytes(bytes)[i];
            b == 0x25 || (0x30 <= b <= 0x39) || (0x41 <= b <= 0x46)
        } by {
            if i >= 3 {
                assert(percent_encode_all_bytes(bytes)[i] == rest[i - 3]);
            }
        }
    }
}

/// Percent-decoding undoes encoding every byte.
pub proof fn lemma_decode_encode_all_bytes(bytes: Seq<u8>)
    ensures
        percent_decode_bytes(percent_encode_all_bytes(bytes)) == bytes,
    decreases bytes.len(),
{
    if bytes.len() > 0 {
        let e = percent_encode_all_bytes(bytes);
        let b0 = bytes[0];
        lemma_hex_value_of_digit(b0 / 16);
        lemma_hex_value_of_digit(b0 % 16);
        assert(e[0] == 0x25);
        assert(e[1] == hex_digit_byte(b0 / 16));
        assert(e[2] == hex_digit_byte(b0 % 16));
        assert(e.skip(3) =~= percent_encode_all_bytes(bytes.drop_first()));
        lemma_decode_encode_all_bytes(bytes.drop_first());
        assert(((b0 / 16) * 16 + b0 % 16) as u8 == b0) by (nonlinear_arith);
        assert(bytes =~= seq![b0] + bytes.drop_first());
    }
}

/// The text of a fully percent-encoded value is ASCII: its UTF-8 bytes are
/// the encoded bytes themselves, and it holds no `=` or `&`.
pub proof fn lemma_encode_all_text(v: Seq<char>)
    ensures
        encode_utf8(percent_encode_all(v)) == percent_encode_all_bytes(encode_utf8(v)),
        !percent_encode_all(v).contains('='),
        !percent_encode_all(v).contains('&'),
{
    let e = percent_encode_all_bytes(encode_utf8(v));
    let t = percent_encode_all(v);
    lemma_encode_all_bytes_shape(encode_utf8(v));
    assert forall|i: int| 0 <= i < t.len() implies '\0' <= #[trigger] t[i] <= '\u{7f}' by {
        assert(t[i] == e[i] as char);
        let b = e[i];
        assert(b == 0x25 || (0x30 <= b <= 0x39) || (0x41 <= b <= 0x46));
    }
    assert(vstd::utf8::is_ascii_chars(t));
    vstd::utf8::is_ascii_chars_encode_utf8(t);
    assert forall|i: int| 0 <= i < e.len() implies encode_utf8(t)[i] == e[i] by {
        assert(t[i] as u8 == encode_utf8(t)[i]);
        assert(t[i] == e[i] as char);
        let b = e[i];
        assert(b == 0x25 || (0x30 <= b <= 0x39) || (0x41 <= b <= 0x46));
    }
    assert(encode_utf8(t) =~= e);
    if t.contains('=') {
        let i = choose|i: int| 0 <= i < t.len() && t[i] == '=';
        assert(t[i] == e[i] as char);
        let b = e[i];
        assert(b == 0x25 || (0x30 <= b <= 0x39) || (0x41 <= b <= 0x46));
    }
    if t.contains('&') {
        let i = choose|i: int| 0 <= i < t.len() && t[i] == '&';
        assert(t[i] == e[i] as char);
        let b = e[i];
        assert(b == 0x25 || (0x30 <= b <= 0x39) || (0x41 <= b <= 0x46));
    }
}

/// The byte of the lower-case hexadecimal digit of `n` (below 16).
pub open spec fn hex_digit_lower_byte(n: u8) -> u8 {
    if n < 10 {
        (0x30 + n) as u8
    } else {
        (0x57 + n) as u8
    }
}

/// Law: `%` and two hexadecimal digits, upper- or lower-case, decode to the
/// byte they spell.
pub proof fn law_percent_decodes_either_case(b: u8, rest: Seq<u8>)
    ensures
        percent_decode_bytes(
            seq![0x25u8, hex_digit_byte(b / 16), hex_digit_byte(b % 16)] + rest,
        ) == seq![b] + percent_decode_bytes(rest),
        percent_decode_bytes(
            seq![0x25u8, hex_digit_lower_byte(b / 16), hex_digit_lower_byte(b % 16)] + rest,
        ) == seq![b] + percent_decode_bytes(rest),
{
    let up = seq![0x25u8, hex_digit_byte(b / 16), hex_digit_byte(b % 16)] + rest;
    let low = seq![0x25u8, hex_digit_lower_byte(b / 16), hex_digit_lower_byte(b % 16)] + rest;
    assert(up.skip(3) =~= rest);
    assert(low.skip(3) =~= rest);
    assert(((b / 16) * 16 + b % 16) as u8 == b) by (nonlinear_arith);
}

/// Law: a `%` that two hexadecimal digits do not follow stays as it is.
pub proof fn law_lone_percent_kept(rest: Seq<u8>)
    requires
        rest.len() < 2 || hex_value(rest[0]) is None || hex_value(rest[1]) is None,
    ensures
        percent_decode_bytes(seq![0x25u8] + rest) == seq![0x25u8] + percent_decode_bytes(rest),
{
    assert((seq![0x25u8] + rest).skip(1) =~= rest);
}

/// Law: a control character (below a space, or DEL) is written as `%` and
/// its two upper-case hexadecimal digits.
pub proof fn law_control_character_encoded(c: char)
    requires
        (c as u32) < 0x20 || c as u32 == 0x7F,
    ensures
        percent_encode_controls(seq![c]) == seq![
            '%',
            hex_digit_upper((c as u32 as u8) / 16),
            hex_digit_upper((c as u32 as u8) % 16),
        ],
{
    let s = seq![c];
    assert(vstd::utf8::is_ascii_chars(s));
    vstd::utf8::is_ascii_chars_encode_utf8(s);
    let bytes = encode_utf8(s);
    assert(bytes.len() == 1);
    assert(bytes[0] == c as u8);
    assert(bytes.drop_last() =~= Seq::<u8>::empty());
    assert(controls_encode_bytes(bytes.drop_last()) =~= Seq::<char>::empty());
    assert(bytes.last() == bytes[0]);
    assert(Seq::<char>::empty() + controls_encode_byte(bytes[0]) =~= controls_encode_byte(bytes[0]));
    assert(controls_encode_bytes(bytes) == controls_encode_byte(bytes[0]));
}

/// Law: in a form body, letters, digits and `*-._` are kept, a space
/// becomes `+`, and any other byte is percent-encoded.
pub proof fn law_form_byte(b: u8)
    ensures
        (0x30 <= b <= 0x39 || 0x41 <= b <= 0x5A || 0x61 <= b <= 0x7A || b == 0x2A || b == 0x2D
            || b == 0x2E || b == 0x5F) ==> form_encode_byte(b) == seq![b as char],
        b == 0x20 ==> form_encode_byte(b) == seq!['+'],
        !(0x30 <= b <= 0x39 || 0x41 <= b <= 0x5A || 0x61 <= b <= 0x7A || b == 0x2A || b == 0x2D
            || b == 0x2E || b == 0x5F || b == 0x20) ==> form_encode_byte(b) == percent_byte(b),
{
}

} // verus!
