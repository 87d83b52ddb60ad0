//! Storage keys: the name under which the record of a link is kept.

use blake2::{Blake2b512, Digest};
use vstd::prelude::*;
use vstd::slice::slice_subrange;
use vstd::utf8::*;

verus! {

/// The byte written between source and target before hashing. It occurs in no
/// UTF-8 text, so the place where the source ends is never in doubt.
pub const SEPARATOR: u8 = 0xFF;

/// How many bytes of the digest a key keeps.
pub const KEY_BYTES: usize = 16;

/// How many characters a key has: two hexadecimal digits for each byte kept.
pub const KEY_LENGTH: usize = 32;

/// The BLAKE2b-512 digest of a message.
pub uninterp spec fn blake2b512(message: Seq<u8>) -> Seq<u8>;

/// The lowercase hexadecimal digit for a value below sixteen.
pub open spec fn hex_digit(nibble: int) -> char {
    seq!['0', '1', '2', '3', '4', '5', '6', '7', '8', '9', 'a', 'b', 'c', 'd', 'e', 'f'][nibble]
}

/// Lowercase hexadecimal text of a byte sequence: for each byte its high digit,
/// then its low digit.
pub open spec fn lower_hex(bytes: Seq<u8>) -> Seq<char> {
    Seq::new(
        2 * bytes.len(),
        |i: int|
            if i % 2 == 0 {
                hex_digit(bytes[i / 2] as int / 16)
            } else {
                hex_digit(bytes[i / 2] as int % 16)
            },
    )
}

/// True of the characters `0` to `9` and `a` to `f`.
pub open spec fn is_hex_digit(c: char) -> bool {
    ('0' <= c && c <= '9') || ('a' <= c && c <= 'f')
}

/// True of a text that has the shape of a key: `KEY_LENGTH` lowercase hexadecimal digits.
pub open spec fn is_key_text(text: Seq<char>) -> bool {
    &&& text.len() == KEY_LENGTH
    &&& forall|i: int| 0 <= i < text.len() ==> is_hex_digit(#[trigger] text[i])
}

/// The bytes that are hashed for a link: the source, the separator, the target.
pub open spec fn key_message(source: Seq<char>, target: Seq<char>) -> Seq<u8> {
    encode_utf8(source) + seq![SEPARATOR] + encode_utf8(target)
}

/// The key of the link from `source` to `target`.
pub open spec fn storage_key(source: Seq<char>, target: Seq<char>) -> Seq<char> {
    lower_hex(blake2b512(key_message(source, target)).subrange(0, KEY_BYTES as int))
}

/// Trusted: `blake2::Blake2b512::digest`. The contract names the digest after the
/// message alone, and states its length, the 64 bytes of BLAKE2b-512.
#[verifier::external_body]
fn blake2b512_digest(message: &[u8]) -> (digest: Vec<u8>)
    ensures
        digest@ == blake2b512(message@),
        digest@.len() == 64,
{
    Blake2b512::digest(message).to_vec()
}

/// Trusted: `hex::encode`. The contract says that each byte comes out as two
/// lowercase hexadecimal digits, the high one first.
#[verifier::external_body]
fn hex_encode(bytes: &[u8]) -> (text: String)
    ensures
        text@ == lower_hex(bytes@),
{
    hex::encode(bytes)
}

/// Derives the storage key of the link from `source` to `target`. Both are taken
/// as they are given: the caller resolves paths before it asks for a key.
pub fn hash_source_target(source: &str, target: &str) -> (key: String)
    ensures
        key@ == storage_key(source@, target@),
        is_key_text(key@),
{
    let mut message: Vec<u8> = Vec::new();
    message.extend_from_slice(source.as_bytes());
    message.push(SEPARATOR);
    message.extend_from_slice(target.as_bytes());
    assert(message@ =~= key_message(source@, target@));
    let digest = blake2b512_digest(message.as_slice());
    let head = slice_subrange(digest.as_slice(), 0, KEY_BYTES);
    proof {
        lemma_lower_hex_is_hex(head@);
    }
    hex_encode(head)
}

/// Hexadecimal text has two characters for each byte, all of them lowercase digits.
pub proof fn lemma_lower_hex_is_hex(bytes: Seq<u8>)
    ensures
        lower_hex(bytes).len() == 2 * bytes.len(),
        forall|i: int| 0 <= i < lower_hex(bytes).len() ==> is_hex_digit(#[trigger] lower_hex(bytes)[i]),
{
    assert forall|i: int| 0 <= i < lower_hex(bytes).len() implies is_hex_digit(
        #[trigger] lower_hex(bytes)[i],
    ) by {
        let b = bytes[i / 2] as int;
        assert(0 <= b / 16 < 16);
        assert(0 <= b % 16 < 16);
        lemma_hex_digit_is_hex(b / 16);
        lemma_hex_digit_is_hex(b % 16);
    }
}

/// Two links are hashed from the same bytes only if they are the same link: the
/// message of a link determines its source and its target.
pub proof fn lemma_key_message_injective(
    source_a: Seq<char>,
    target_a: Seq<char>,
    source_b: Seq<char>,
    target_b: Seq<char>,
)
    requires
        key_message(source_a, target_a) == key_message(source_b, target_b),
    ensures
        source_a == source_b,
        target_a == target_b,
{
    let head_a = encode_utf8(source_a);
    let head_b = encode_utf8(source_b);
    let tail_a = encode_utf8(target_a);
    let tail_b = encode_utf8(target_b);
    encode_utf8_valid_utf8(source_a);
    encode_utf8_valid_utf8(source_b);
    lemma_utf8_has_no_separator(head_a);
    lemma_utf8_has_no_separator(head_b);
    lemma_split_at_separator(head_a, tail_a, head_b, tail_b);
    encode_utf8_decode_utf8(source_a);
    encode_utf8_decode_utf8(source_b);
    encode_utf8_decode_utf8(target_a);
    encode_utf8_decode_utf8(target_b);
}

/// No byte of a UTF-8 text is the separator.
pub proof fn lemma_utf8_has_no_separator(bytes: Seq<u8>)
    requires
        valid_utf8(bytes),
    ensures
        forall|i: int| 0 <= i < bytes.len() ==> #[trigger] bytes[i] != SEPARATOR,
    decreases bytes.len(),
{
    if bytes.len() != 0 {
        let width = length_of_first_scalar(bytes);
        let rest = pop_first_scalar(bytes);
        assert(1 <= width <= 4 && width <= bytes.len());
        lemma_utf8_has_no_separator(rest);
        assert forall|i: int| 0 <= i < bytes.len() implies #[trigger] bytes[i] != SEPARATOR by {
            if i >= width {
                assert(bytes[i] == rest[i - width]);
            }
        }
    }
}

/// A byte sequence with a separator after a separator-free head splits in one way only.
proof fn lemma_split_at_separator(
    head_a: Seq<u8>,
    tail_a: Seq<u8>,
    head_b: Seq<u8>,
    tail_b: Seq<u8>,
)
    requires
        forall|i: int| 0 <= i < head_a.len() ==> #[trigger] head_a[i] != SEPARATOR,
        forall|i: int| 0 <= i < head_b.len() ==> #[trigger] head_b[i] != SEPARATOR,
        head_a + seq![SEPARATOR] + tail_a == head_b + seq![SEPARATOR] + tail_b,
    ensures
        head_a == head_b,
        tail_a == tail_b,
{
    let whole_a = head_a + seq![SEPARATOR] + tail_a;
    let whole_b = head_b + seq![SEPARATOR] + tail_b;
    assert(whole_a[head_a.len() as int] == SEPARATOR);
    assert(whole_b[head_b.len() as int] == SEPARATOR);
    if head_a.len() < head_b.len() {
        assert(whole_b[head_a.len() as int] == head_b[head_a.len() as int]);
    }
    if head_b.len() < head_a.len() {
        assert(whole_a[head_b.len() as int] == head_a[head_b.len() as int]);
    }
    assert(head_a.len() == head_b.len());
    assert(whole_a.len() == whole_b.len());
    assert forall|i: int| 0 <= i < head_a.len() implies head_a[i] == head_b[i] by {
        assert(whole_a[i] == head_a[i]);
        assert(whole_b[i] == head_b[i]);
    }
    assert(head_a =~= head_b);
    assert forall|i: int| 0 <= i < tail_a.len() implies tail_a[i] == tail_b[i] by {
        assert(whole_a[head_a.len() + 1 + i] == tail_a[i]);
        assert(whole_b[head_b.len() + 1 + i] == tail_b[i]);
    }
    assert(tail_a =~= tail_b);
}

proof fn lemma_hex_digit_is_hex(nibble: int)
    requires
        0 <= nibble < 16,
    ensures
        is_hex_digit(hex_digit(nibble)),
{
}

} // verus!
