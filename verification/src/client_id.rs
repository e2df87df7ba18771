//! Connection identifiers: 128-bit numbers drawn at connect time, shown to
//! clients in the hyphenated hexadecimal form of a UUID.

use vstd::prelude::*;

verus! {

/// The bits that every version 4 UUID fixes: the version nibble and the two variant bits.
pub open spec fn is_v4(id: u128) -> bool {
    id & 0x0000_0000_0000_f000_c000_0000_0000_0000 == 0x0000_0000_0000_4000_8000_0000_0000_0000
}

/// The lower-case hexadecimal digit for a value below sixteen.
pub open spec fn hex_char(n: int) -> char {
    seq!['0', '1', '2', '3', '4', '5', '6', '7', '8', '9', 'a', 'b', 'c', 'd', 'e', 'f'][n]
}

/// The `k`-th hexadecimal digit of `id`, counted from the most significant one (`0 <= k < 32`).
pub open spec fn hex_digit(id: u128, k: int) -> u128 {
    (id >> (((31 - k) * 4) as u128)) & 0xf
}

/// Whether position `p` of the textual form holds a hyphen.
pub open spec fn is_hyphen_position(p: int) -> bool {
    p == 8 || p == 13 || p == 18 || p == 23
}

/// The number of hyphens that stand before position `p` of the textual form.
pub open spec fn hyphens_before(p: int) -> int {
    if p < 8 {
        0
    } else if p < 13 {
        1
    } else if p < 18 {
        2
    } else if p < 23 {
        3
    } else {
        4
    }
}

/// The character at position `p` (`0 <= p < 36`) of the textual form of `id`.
pub open spec fn id_text_char(id: u128, p: int) -> char {
    if is_hyphen_position(p) {
        '-'
    } else {
        hex_char(hex_digit(id, p - hyphens_before(p)) as int)
    }
}

/// The textual form of an identifier: its 32 hexadecimal digits, most
/// significant first, in groups of 8, 4, 4, 4 and 12 joined by hyphens.
pub open spec fn id_text(id: u128) -> Seq<char> {
    Seq::new(36, |p: int| id_text_char(id, p))
}

/// Draws a fresh identifier.
///
/// Calls `uuid::Uuid::new_v4` and reads the result as a number with
/// `Uuid::as_u128`. The value is random; all that is claimed is that the
/// version and variant bits are those of a version 4 UUID, which `new_v4`
/// sets by masking. `new_v4` panics if the operating system cannot supply
/// random bytes.
#[verifier::external_body]
pub(crate) fn fresh_id() -> (id: u128)
    ensures
        is_v4(id),
{
    uuid::Uuid::new_v4().as_u128()
}

/// Writes an identifier in its textual form.
///
/// Calls `uuid::Uuid::from_u128` and formats the result through its
/// `Display` impl, which writes the hyphenated lower-case form: the sixteen
/// bytes of the number in big-endian order, two hexadecimal digits each, with
/// hyphens after the 8th, 12th, 16th and 20th digit.
#[verifier::external_body]
pub(crate) fn hyphenated(id: u128) -> (text: String)
    ensures
        text@ == id_text(id),
{
    uuid::Uuid::from_u128(id).to_string()
}

/// Every digit is below sixteen.
pub proof fn lemma_hex_digit_bound(id: u128, k: int)
    ensures
        hex_digit(id, k) < 16,
{
    let s = ((31 - k) * 4) as u128;
    assert((id >> s) & 0xf < 16) by (bit_vector);
}

/// The textual form is 36 characters long, so never empty.
pub proof fn lemma_id_text_len(id: u128)
    ensures
        id_text(id).len() == 36,
{
}

/// Two numbers whose digits agree also agree on what stands above digit `k`.
proof fn lemma_prefixes_agree(a: u128, b: u128, k: int)
    requires
        0 <= k < 32,
        forall|j: int| 0 <= j < 32 ==> hex_digit(a, j) == hex_digit(b, j),
    ensures
        a >> (((31 - k) * 4) as u128) == b >> (((31 - k) * 4) as u128),
    decreases k,
{
    let s = ((31 - k) * 4) as u128;
    assert(hex_digit(a, k) == hex_digit(b, k));
    if k == 0 {
        assert(a >> s == b >> s) by (bit_vector)
            requires
                s == 124,
                (a >> s) & 0xf == (b >> s) & 0xf,
        ;
    } else {
        lemma_prefixes_agree(a, b, k - 1);
        let t = ((31 - (k - 1)) * 4) as u128;
        assert(a >> s == b >> s) by (bit_vector)
            requires
                s <= 120,
                t == s + 4,
                a >> t == b >> t,
                (a >> s) & 0xf == (b >> s) & 0xf,
        ;
    }
}

/// Two numbers with the same 32 hexadecimal digits are equal.
pub proof fn lemma_digits_determine(a: u128, b: u128)
    requires
        forall|k: int| 0 <= k < 32 ==> hex_digit(a, k) == hex_digit(b, k),
    ensures
        a == b,
{
    lemma_prefixes_agree(a, b, 31);
    assert(a >> 0 == a) by (bit_vector);
    assert(b >> 0 == b) by (bit_vector);
}

/// Distinct digits have distinct characters.
pub proof fn lemma_hex_char_injective(m: int, n: int)
    requires
        0 <= m < 16,
        0 <= n < 16,
        hex_char(m) == hex_char(n),
    ensures
        m == n,
{
}

/// The position in the textual form of the `k`-th digit (`0 <= k < 32`).
pub open spec fn digit_position(k: int) -> int {
    if k < 8 {
        k
    } else if k < 12 {
        k + 1
    } else if k < 16 {
        k + 2
    } else if k < 20 {
        k + 3
    } else {
        k + 4
    }
}

/// Distinct identifiers have distinct textual forms: keying the registry by
/// the number is the same as keying it by the text that clients see.
pub proof fn lemma_id_text_injective(a: u128, b: u128)
    requires
        id_text(a) == id_text(b),
    ensures
        a == b,
{
    assert forall|k: int| 0 <= k < 32 implies hex_digit(a, k) == hex_digit(b, k) by {
        let p = digit_position(k);
        assert(id_text(a)[p] == id_text(b)[p]);
        assert(id_text(a)[p] == hex_char(hex_digit(a, k) as int));
        assert(id_text(b)[p] == hex_char(hex_digit(b, k) as int));
        lemma_hex_digit_bound(a, k);
        lemma_hex_digit_bound(b, k);
        lemma_hex_char_injective(hex_digit(a, k) as int, hex_digit(b, k) as int);
    }
    lemma_digits_determine(a, b);
}

/// The number `k` spread over 64 of the bits that a version 4 UUID leaves
/// free: its low 62 bits stay where they are, its two high bits go to bits
/// 64 and 65.
pub open spec fn spread(k: u64) -> u128 {
    ((k as u128) & 0x3fff_ffff_ffff_ffff) | (((k as u128) >> 62) << 64)
}

/// The `k`-th identifier to try in place of `id` when `id` is in use. The
/// first is `id` itself; all are different, and all have the version and
/// variant bits of `id`.
pub open spec fn probe(id: u128, k: u64) -> u128 {
    id ^ spread(k)
}

/// Computes the `k`-th identifier to try in place of `id`.
pub fn probe_at(id: u128, k: u64) -> (other: u128)
    ensures
        other == probe(id, k),
{
    let wide: u128 = k as u128;
    id ^ ((wide & 0x3fff_ffff_ffff_ffff) | ((wide >> 62) << 64))
}

/// The first identifier to try is the one that was drawn.
pub proof fn lemma_probe_starts_at_id(id: u128)
    ensures
        probe(id, 0) == id,
{
    assert(id ^ spread(0) == id) by (bit_vector);
}

/// Trying another identifier keeps the version and the variant.
pub proof fn lemma_probe_keeps_version(id: u128, k: u64)
    requires
        is_v4(id),
    ensures
        is_v4(probe(id, k)),
{
    assert(is_v4(id ^ spread(k))) by (bit_vector)
        requires
            is_v4(id),
    ;
}

/// No identifier is tried twice.
pub proof fn lemma_probe_injective(id: u128, j: u64, k: u64)
    requires
        probe(id, j) == probe(id, k),
    ensures
        j == k,
{
    assert(j == k) by (bit_vector)
        requires
            id ^ spread(j) == id ^ spread(k),
    ;
}

} // verus!
