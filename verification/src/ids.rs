//! Identifiers of new rows: version-4 UUIDs made of 16 random bytes drawn
//! by the caller, written out in lowercase hyphenated form.
use vstd::prelude::*;

verus! {

/// The lowercase hexadecimal digit of a value below 16.
pub open spec fn hex_digit(v: int) -> char {
    if v < 10 {
        (48 + v) as char
    } else {
        (87 + v) as char
    }
}

/// Two hexadecimal digits per byte value, high half first.
pub open spec fn hex_of(bs: Seq<int>) -> Seq<char>
    decreases bs.len(),
{
    if bs.len() == 0 {
        Seq::empty()
    } else {
        hex_of(bs.drop_last()) + seq![hex_digit(bs.last() / 16), hex_digit(bs.last() % 16)]
    }
}

/// The bytes of the version-4 UUID made of 16 random bytes: byte 6 gets
/// the version 4 in its high half, byte 8 the variant bits `10` on top;
/// the others stay as drawn.
pub open spec fn v4_bytes(b: Seq<u8>) -> Seq<int> {
    Seq::new(
        16,
        |i: int|
            if i == 6 {
                (b[6] % 16) + 64
            } else if i == 8 {
                (b[8] % 64) + 128
            } else {
                b[i] as int
            },
    )
}

/// The text of the version-4 UUID made of the random bytes `b`: its bytes
/// in lowercase hexadecimal, in groups of 4, 2, 2, 2 and 6 bytes joined by
/// `-`.
pub open spec fn uuid_v4_text(b: Seq<u8>) -> Seq<char> {
    let v = v4_bytes(b);
    hex_of(v.subrange(0, 4)) + seq!['-'] + hex_of(v.subrange(4, 6)) + seq!['-'] + hex_of(v.subrange(6, 8))
        + seq!['-'] + hex_of(v.subrange(8, 10)) + seq!['-'] + hex_of(v.subrange(10, 16))
}

/// `uuid::Builder::from_random_bytes(bytes).into_uuid()`, written out by
/// its `Display` (lowercase, hyphenated). The builder sets the version and
/// variant bits as `v4_bytes` states, and the text is `uuid_v4_text`.
#[verifier::external_body]
fn uuid_v4_string(bytes: [u8; 16]) -> (r: String)
    ensures
        r@ == uuid_v4_text(bytes@),
{
    uuid::Builder::from_random_bytes(bytes).into_uuid().to_string()
}

/// `hex_of` gives two digits per byte.
proof fn lemma_hex_len(bs: Seq<int>)
    ensures
        hex_of(bs).len() == 2 * bs.len(),
    decreases bs.len(),
{
    if bs.len() > 0 {
        lemma_hex_len(bs.drop_last());
    }
}

/// A new identifier from 16 random bytes: the version-4 UUID they make, in
/// its 36-character text with `-` at places 8, 13, 18 and 23.
pub fn id_from_random(bytes: [u8; 16]) -> (r: String)
    ensures
        r@ == uuid_v4_text(bytes@),
        r@.len() == 36,
        r@[8] == '-' && r@[13] == '-' && r@[18] == '-' && r@[23] == '-',
{
    let r = uuid_v4_string(bytes);
    proof {
        let v = v4_bytes(bytes@);
        lemma_hex_len(v.subrange(0, 4));
        lemma_hex_len(v.subrange(4, 6));
        lemma_hex_len(v.subrange(6, 8));
        lemma_hex_len(v.subrange(8, 10));
        lemma_hex_len(v.subrange(10, 16));
    }
    r
}

} // verus!
