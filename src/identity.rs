use vstd::prelude::*;
use vstd::string::StrSliceExecFns;

verus! {

/// An opaque 128-bit identity; its integer form reads the bytes big-endian.
#[derive(Clone, Copy, PartialEq, Eq, Structural, Debug, Hash)]
pub struct Identity {
    pub value: u128,
}

/// The sixteen bytes of `v`, most significant first.
pub open spec fn be_bytes(v: u128) -> Seq<u8> {
    seq![
        (v >> 120u128) as u8, (v >> 112u128) as u8, (v >> 104u128) as u8, (v >> 96u128) as u8,
        (v >> 88u128) as u8, (v >> 80u128) as u8, (v >> 72u128) as u8, (v >> 64u128) as u8,
        (v >> 56u128) as u8, (v >> 48u128) as u8, (v >> 40u128) as u8, (v >> 32u128) as u8,
        (v >> 24u128) as u8, (v >> 16u128) as u8, (v >> 8u128) as u8, v as u8,
    ]
}

/// The integer that sixteen bytes spell when read most significant first.
pub open spec fn be_value(b: Seq<u8>) -> u128 {
    (b[0] as u128) << 120u128 | (b[1] as u128) << 112u128 | (b[2] as u128) << 104u128
        | (b[3] as u128) << 96u128 | (b[4] as u128) << 88u128 | (b[5] as u128) << 80u128
        | (b[6] as u128) << 72u128 | (b[7] as u128) << 64u128 | (b[8] as u128) << 56u128
        | (b[9] as u128) << 48u128 | (b[10] as u128) << 40u128 | (b[11] as u128) << 32u128
        | (b[12] as u128) << 24u128 | (b[13] as u128) << 16u128 | (b[14] as u128) << 8u128
        | (b[15] as u128)
}

/// Relies on uuid::Uuid::from_u128, read back through `into_bytes`: the UUID's
/// bytes are the integer's bytes, most significant first.
#[verifier::external_body]
fn uuid_bytes_of(v: u128) -> (r: [u8; 16])
    ensures
        r@ == be_bytes(v),
{
    uuid::Uuid::from_u128(v).into_bytes()
}

/// Relies on uuid::Uuid::from_bytes, read back through `as_u128`: the integer
/// reads the bytes most significant first.
#[verifier::external_body]
fn uuid_value_of(b: [u8; 16]) -> (r: u128)
    ensures
        r == be_value(b@),
{
    uuid::Uuid::from_bytes(b).as_u128()
}

/// The big-endian byte form of an identity.
pub fn identity_to_bytes(id: Identity) -> (r: [u8; 16])
    ensures
        r@ == be_bytes(id.value),
{
    uuid_bytes_of(id.value)
}

/// The identity that sixteen big-endian bytes encode.
pub fn bytes_to_identity(bytes: [u8; 16]) -> (r: Identity)
    ensures
        r.value == be_value(bytes@),
{
    Identity { value: uuid_value_of(bytes) }
}

/// Reading back the bytes of a value gives the value.
pub proof fn lemma_bytes_round_trip(v: u128)
    ensures
        be_value(be_bytes(v)) == v,
{
    let b = be_bytes(v);
    assert(
        ((v >> 120u128) as u8 as u128) << 120u128 | ((v >> 112u128) as u8 as u128) << 112u128
        | ((v >> 104u128) as u8 as u128) << 104u128 | ((v >> 96u128) as u8 as u128) << 96u128
        | ((v >> 88u128) as u8 as u128) << 88u128 | ((v >> 80u128) as u8 as u128) << 80u128
        | ((v >> 72u128) as u8 as u128) << 72u128 | ((v >> 64u128) as u8 as u128) << 64u128
        | ((v >> 56u128) as u8 as u128) << 56u128 | ((v >> 48u128) as u8 as u128) << 48u128
        | ((v >> 40u128) as u8 as u128) << 40u128 | ((v >> 32u128) as u8 as u128) << 32u128
        | ((v >> 24u128) as u8 as u128) << 24u128 | ((v >> 16u128) as u8 as u128) << 16u128
        | ((v >> 8u128) as u8 as u128) << 8u128 | (v as u8 as u128) == v
    ) by (bit_vector);
}

/// Writing out the value of sixteen bytes gives the same bytes.
pub proof fn lemma_value_round_trip(b: Seq<u8>)
    requires
        b.len() == 16,
    ensures
        be_bytes(be_value(b)) == b,
{
    let (b0, b1, b2, b3, b4, b5, b6, b7) = (b[0], b[1], b[2], b[3], b[4], b[5], b[6], b[7]);
    let (b8, b9, b10, b11, b12, b13, b14, b15) = (b[8], b[9], b[10], b[11], b[12], b[13], b[14], b[15]);
    let v = be_value(b);
    assert(v == (b0 as u128) << 120u128 | (b1 as u128) << 112u128 | (b2 as u128) << 104u128 | (b3 as u128) << 96u128
        | (b4 as u128) << 88u128 | (b5 as u128) << 80u128 | (b6 as u128) << 72u128 | (b7 as u128) << 64u128
        | (b8 as u128) << 56u128 | (b9 as u128) << 48u128 | (b10 as u128) << 40u128 | (b11 as u128) << 32u128
        | (b12 as u128) << 24u128 | (b13 as u128) << 16u128 | (b14 as u128) << 8u128 | (b15 as u128));
    assert(v == (b0 as u128) << 120u128 | (b1 as u128) << 112u128 | (b2 as u128) << 104u128 | (b3 as u128) << 96u128
        | (b4 as u128) << 88u128 | (b5 as u128) << 80u128 | (b6 as u128) << 72u128 | (b7 as u128) << 64u128
        | (b8 as u128) << 56u128 | (b9 as u128) << 48u128 | (b10 as u128) << 40u128 | (b11 as u128) << 32u128
        | (b12 as u128) << 24u128 | (b13 as u128) << 16u128 | (b14 as u128) << 8u128 | (b15 as u128) ==> {
        &&& (v >> 120u128) as u8 == b0
        &&& (v >> 112u128) as u8 == b1
        &&& (v >> 104u128) as u8 == b2
        &&& (v >> 96u128) as u8 == b3
        &&& (v >> 88u128) as u8 == b4
        &&& (v >> 80u128) as u8 == b5
        &&& (v >> 72u128) as u8 == b6
        &&& (v >> 64u128) as u8 == b7
        &&& (v >> 56u128) as u8 == b8
        &&& (v >> 48u128) as u8 == b9
        &&& (v >> 40u128) as u8 == b10
        &&& (v >> 32u128) as u8 == b11
        &&& (v >> 24u128) as u8 == b12
        &&& (v >> 16u128) as u8 == b13
        &&& (v >> 8u128) as u8 == b14
        &&& v as u8 == b15
    }) by (bit_vector);
    assert(be_bytes(v) =~= b);
}

/// Whether `c` is a hexadecimal digit, in either case.
pub open spec fn is_hex_digit(c: char) -> bool {
    ('0' <= c && c <= '9') || ('a' <= c && c <= 'f') || ('A' <= c && c <= 'F')
}

/// The value of the hexadecimal digit `c`.
pub open spec fn hex_digit_value(c: char) -> int {
    if '0' <= c && c <= '9' {
        c as int - '0' as int
    } else if 'a' <= c && c <= 'f' {
        c as int - 'a' as int + 10
    } else {
        c as int - 'A' as int + 10
    }
}

/// The positions of the four hyphens in `xxxxxxxx-xxxx-xxxx-xxxx-xxxxxxxxxxxx`.
pub open spec fn is_hyphen_position(i: int) -> bool {
    i == 8 || i == 13 || i == 18 || i == 23
}

/// Whether `s` has the hyphenated shape: 36 characters, hyphens at the four
/// group boundaries and hexadecimal digits everywhere else.
pub open spec fn is_hyphenated(s: Seq<char>) -> bool {
    &&& s.len() == 36
    &&& forall|i: int|
        0 <= i < 36 ==> if is_hyphen_position(i) {
            s[i] == '-'
        } else {
            is_hex_digit(s[i])
        }
}

/// The number that the hexadecimal digits `d` spell, most significant first.
pub open spec fn hex_number(d: Seq<char>) -> int
    decreases d.len(),
{
    if d.len() == 0 {
        0
    } else {
        hex_number(d.drop_last()) * 16 + hex_digit_value(d.last())
    }
}

/// The value written by a hyphenated identity: its 32 digits read as one number.
pub open spec fn hyphenated_value(s: Seq<char>) -> int {
    hex_number(s.filter(|c: char| c != '-'))
}

/// Relies on uuid::Uuid::parse_str, read back through `as_u128`: a string of
/// the hyphenated shape parses, and its 32 digits, in either case, give the
/// integer's nibbles from the most significant on.
#[verifier::external_body]
fn uuid_parse(text: &str) -> (r: Option<u128>)
    ensures
        is_hyphenated(text@) ==> r is Some && r->Some_0 as int == hyphenated_value(text@),
{
    match uuid::Uuid::parse_str(text) {
        Ok(u) => Some(u.as_u128()),
        Err(_) => None,
    }
}

fn is_hex_digit_exec(c: char) -> (r: bool)
    ensures
        r == is_hex_digit(c),
{
    ('0' <= c && c <= '9') || ('a' <= c && c <= 'f') || ('A' <= c && c <= 'F')
}

/// Reads an identity written as `xxxxxxxx-xxxx-xxxx-xxxx-xxxxxxxxxxxx`, digits
/// in either case; any other text gives `None`.
pub fn parse_identity(text: &str) -> (r: Option<Identity>)
    ensures
        r is Some <==> is_hyphenated(text@),
        r is Some ==> r->Some_0.value as int == hyphenated_value(text@),
{
    if text.unicode_len() != 36 {
        return None;
    }
    let mut i: usize = 0;
    while i < 36
        invariant
            text@.len() == 36,
            i <= 36,
            forall|j: int|
                0 <= j < i ==> if is_hyphen_position(j) {
                    text@[j] == '-'
                } else {
                    is_hex_digit(text@[j])
                },
        decreases 36 - i,
    {
        let c = text.get_char(i);
        if i == 8 || i == 13 || i == 18 || i == 23 {
            if c != '-' {
                return None;
            }
        } else if !is_hex_digit_exec(c) {
            return None;
        }
        i = i + 1;
    }
    match uuid_parse(text) {
        Some(v) => Some(Identity { value: v }),
        None => None,
    }
}

} // verus!
