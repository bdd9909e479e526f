//! Names of directory entries: from the bytes on disk to text.

use vstd::prelude::*;
use vstd::utf8::{decode_utf8, pop_first_scalar, valid_utf8};

verus! {

/// Whether a UTF-16 code unit is a surrogate: one half of a pair that
/// spells a character beyond U+FFFF.
pub open spec fn is_surrogate(unit: u16) -> bool {
    0xD800 <= unit <= 0xDFFF
}

/// The character that a high surrogate and the low surrogate behind it
/// spell.
pub open spec fn surrogate_pair(high: u16, low: u16) -> char {
    ((0x10000 + (high as int - 0xD800) * 0x400 + (low as int - 0xDC00)) as u32) as char
}

/// The text that a sequence of UTF-16 code units spells, or `None` where the
/// units are not well-formed UTF-16.
///
/// A unit that is no surrogate is the character of its number. A high
/// surrogate (0xD800 to 0xDBFF) with a low surrogate (0xDC00 to 0xDFFF)
/// behind it is one character. A surrogate that stands alone makes the
/// whole sequence ill-formed.
pub open spec fn utf16_decoded(units: Seq<u16>) -> Option<Seq<char>>
    decreases units.len(),
{
    if units.len() == 0 {
        Some(Seq::empty())
    } else if !is_surrogate(units[0]) {
        match utf16_decoded(units.skip(1)) {
            Some(rest) => Some(seq![(units[0] as u32) as char] + rest),
            None => None,
        }
    } else if units[0] <= 0xDBFF && units.len() >= 2 && 0xDC00 <= units[1] <= 0xDFFF {
        match utf16_decoded(units.skip(2)) {
            Some(rest) => Some(seq![surrogate_pair(units[0], units[1])] + rest),
            None => None,
        }
    } else {
        None
    }
}

/// Units without a surrogate among them spell one character each.
pub proof fn lemma_utf16_without_surrogates(units: Seq<u16>)
    requires
        forall|i: int| 0 <= i < units.len() ==> !is_surrogate(#[trigger] units[i]),
    ensures
        utf16_decoded(units) == Some(Seq::new(units.len(), |i: int| (units[i] as u32) as char)),
    decreases units.len(),
{
    if units.len() > 0 {
        let rest = units.skip(1);
        assert forall|i: int| 0 <= i < rest.len() implies !is_surrogate(#[trigger] rest[i]) by {
            assert(rest[i] == units[i + 1]);
        }
        lemma_utf16_without_surrogates(rest);
        assert(seq![(units[0] as u32) as char] + Seq::new(rest.len(), |i: int| (rest[i] as u32) as char)
            =~= Seq::new(units.len(), |i: int| (units[i] as u32) as char));
    } else {
        assert(Seq::<char>::empty() =~= Seq::new(units.len(), |i: int| (units[i] as u32) as char));
    }
}

/// Units with a surrogate that stands alone spell nothing: a low surrogate
/// with no high surrogate before it, or a high surrogate with no low
/// surrogate behind it, after units that are no surrogates.
pub proof fn lemma_utf16_lone_surrogate(units: Seq<u16>, at: int)
    requires
        0 <= at < units.len(),
        forall|i: int| 0 <= i < at ==> !is_surrogate(#[trigger] units[i]),
        is_surrogate(units[at]),
        units[at] >= 0xDC00 || at + 1 == units.len() || !(0xDC00 <= units[at + 1] <= 0xDFFF),
    ensures
        utf16_decoded(units) is None,
    decreases at,
{
    if at > 0 {
        let rest = units.skip(1);
        assert forall|i: int| 0 <= i < at - 1 implies !is_surrogate(#[trigger] rest[i]) by {
            assert(rest[i] == units[i + 1]);
        }
        assert(rest[at - 1] == units[at]);
        if at + 1 < units.len() {
            assert(rest[at] == units[at + 1]);
        }
        lemma_utf16_lone_surrogate(rest, at - 1);
    }
}

/// Decodes UTF-16 with `String::from_utf16` of the standard library. That
/// function gives the text that the units spell, and an error where they
/// hold a surrogate that stands alone: the contract says so, with nothing
/// for the error.
#[verifier::external_body]
pub(crate) fn decode_utf16(units: &[u16]) -> (r: Option<String>)
    ensures
        match r {
            Some(text) => utf16_decoded(units@) == Some(text@),
            None => utf16_decoded(units@) is None,
        },
{
    String::from_utf16(units).ok()
}

/// Reads bytes as UTF-8 with `std::str::from_utf8`: the text that the bytes
/// spell where they are well-formed UTF-8, and nothing where they are not.
#[verifier::external_body]
pub(crate) fn decode_utf8_text(bytes: &[u8]) -> (r: Option<&str>)
    ensures
        r is Some <==> valid_utf8(bytes@),
        r matches Some(text) ==> text@ == decode_utf8(bytes@),
{
    std::str::from_utf8(bytes).ok()
}

/// The ASCII letter `byte` in lower case, and every other byte as it is.
pub open spec fn ascii_lower(byte: u8) -> u8 {
    if 0x41 <= byte <= 0x5A {
        (byte + 0x20) as u8
    } else {
        byte
    }
}

/// The ASCII letter `byte` in upper case, and every other byte as it is.
pub open spec fn ascii_upper(byte: u8) -> u8 {
    if 0x61 <= byte <= 0x7A {
        (byte - 0x20) as u8
    } else {
        byte
    }
}

/// Whether two names are the same but for the case of their ASCII letters.
pub open spec fn same_name(a: Seq<u8>, b: Seq<u8>) -> bool {
    &&& a.len() == b.len()
    &&& forall|i: int| 0 <= i < a.len() ==> ascii_lower(#[trigger] a[i]) == ascii_lower(b[i])
}

/// The ASCII letter `byte` in lower case, and every other byte as it is.
pub fn to_ascii_lower(byte: u8) -> (r: u8)
    ensures
        r == ascii_lower(byte),
{
    if 0x41 <= byte && byte <= 0x5A {
        byte + 0x20
    } else {
        byte
    }
}

/// Whether two names are the same but for the case of their ASCII letters.
pub fn eq_ignore_ascii_case(a: &[u8], b: &[u8]) -> (r: bool)
    ensures
        r == same_name(a@, b@),
{
    if a.len() != b.len() {
        return false;
    }
    let n: usize = a.len();
    let mut i: usize = 0;
    while i < n
        invariant
            i <= n,
            n == a@.len(),
            n == b@.len(),
            forall|j: int| 0 <= j < i ==> ascii_lower(#[trigger] a@[j]) == ascii_lower(b@[j]),
        decreases n - i,
    {
        if to_ascii_lower(a[i]) != to_ascii_lower(b[i]) {
            return false;
        }
        i += 1;
    }
    true
}

/// `name` with its ASCII letters in upper case.
pub open spec fn upper_case(name: Seq<u8>) -> Seq<u8> {
    Seq::new(name.len(), |i: int| ascii_upper(name[i]))
}

/// `name` with its ASCII letters in lower case.
pub open spec fn lower_case(name: Seq<u8>) -> Seq<u8> {
    Seq::new(name.len(), |i: int| ascii_lower(name[i]))
}

/// A name in upper case, the name in lower case and the name as it is are
/// all the same name to every other name.
pub proof fn lemma_same_name_any_case(other: Seq<u8>, name: Seq<u8>)
    ensures
        same_name(other, upper_case(name)) == same_name(other, name),
        same_name(other, lower_case(name)) == same_name(other, name),
{
    let up = upper_case(name);
    let low = lower_case(name);
    assert forall|i: int| 0 <= i < name.len() implies ascii_lower(#[trigger] up[i]) == ascii_lower(name[i])
        && ascii_lower(#[trigger] low[i]) == ascii_lower(name[i]) by {}
    if same_name(other, name) {
        assert forall|i: int| 0 <= i < other.len() implies ascii_lower(#[trigger] other[i]) == ascii_lower(
            up[i],
        ) by {
            assert(ascii_lower(up[i]) == ascii_lower(name[i]));
        }
        assert forall|i: int| 0 <= i < other.len() implies ascii_lower(#[trigger] other[i]) == ascii_lower(
            low[i],
        ) by {
            assert(ascii_lower(low[i]) == ascii_lower(name[i]));
        }
    }
    if same_name(other, up) {
        assert forall|i: int| 0 <= i < other.len() implies ascii_lower(#[trigger] other[i]) == ascii_lower(
            name[i],
        ) by {
            assert(ascii_lower(up[i]) == ascii_lower(name[i]));
        }
    }
    if same_name(other, low) {
        assert forall|i: int| 0 <= i < other.len() implies ascii_lower(#[trigger] other[i]) == ascii_lower(
            name[i],
        ) by {
            assert(ascii_lower(low[i]) == ascii_lower(name[i]));
        }
    }
}

/// Whether `changed` is `bytes` with some ASCII bytes replaced by other
/// ASCII bytes.
pub open spec fn same_but_ascii(bytes: Seq<u8>, changed: Seq<u8>) -> bool {
    &&& bytes.len() == changed.len()
    &&& forall|i: int|
        0 <= i < bytes.len() ==> if #[trigger] bytes[i] < 0x80 {
            changed[i] < 0x80
        } else {
            changed[i] == bytes[i]
        }
}

/// UTF-8 stays UTF-8 when ASCII bytes are replaced by other ASCII bytes.
pub proof fn lemma_utf8_but_ascii(bytes: Seq<u8>, changed: Seq<u8>)
    requires
        valid_utf8(bytes),
        same_but_ascii(bytes, changed),
    ensures
        valid_utf8(changed),
    decreases bytes.len(),
{
    if bytes.len() > 0 {
        let first = changed[0];
        assert(first & 0x7F <= 0x7F) by (bit_vector);
        assert(bytes[0] < 0x80 || bytes[0] == changed[0]);
        if bytes[0] >= 0x80 {
            if bytes.len() >= 2 {
                assert(bytes[1] < 0x80 || bytes[1] == changed[1]);
            }
            if bytes.len() >= 3 {
                assert(bytes[2] < 0x80 || bytes[2] == changed[2]);
            }
            if bytes.len() >= 4 {
                assert(bytes[3] < 0x80 || bytes[3] == changed[3]);
            }
        }
        let rest = pop_first_scalar(bytes);
        let changed_rest = pop_first_scalar(changed);
        assert(same_but_ascii(rest, changed_rest)) by {
            assert forall|i: int| 0 <= i < rest.len() implies if #[trigger] rest[i] < 0x80 {
                changed_rest[i] < 0x80
            } else {
                changed_rest[i] == rest[i]
            } by {
                let at = bytes.len() - rest.len();
                assert(rest[i] == bytes[at + i]);
                assert(bytes[at + i] < 0x80 || bytes[at + i] == changed[at + i]);
            }
        }
        lemma_utf8_but_ascii(rest, changed_rest);
    }
}

/// A name that is UTF-8 is UTF-8 in upper case and in lower case too.
pub proof fn lemma_utf8_any_case(name: Seq<u8>)
    requires
        valid_utf8(name),
    ensures
        valid_utf8(upper_case(name)),
        valid_utf8(lower_case(name)),
{
    assert(same_but_ascii(name, upper_case(name)));
    assert(same_but_ascii(name, lower_case(name)));
    lemma_utf8_but_ascii(name, upper_case(name));
    lemma_utf8_but_ascii(name, lower_case(name));
}

} // verus!
