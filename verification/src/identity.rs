//! Keys of sixteen bytes, their text, and the key that a digest makes.

use crate::text::{digit, hex_pairs, hex_value, push_hex_pair};
use vstd::prelude::*;

verus! {

/// A key of sixteen bytes as a UUID: digits in base sixteen in lower case, in groups of 8, 4, 4, 4
/// and 12 with hyphens between them.
pub open spec fn uuid_text(k: Seq<u8>) -> Seq<char> {
    hex_pairs(k.subrange(0, 4)) + seq!['-'] + hex_pairs(k.subrange(4, 6)) + seq!['-'] + hex_pairs(
        k.subrange(6, 8),
    ) + seq!['-'] + hex_pairs(k.subrange(8, 10)) + seq!['-'] + hex_pairs(k.subrange(10, 16))
}

/// Whether a text is the UUID of a key.
pub open spec fn is_uuid(text: Seq<char>) -> bool {
    exists|k: Seq<u8>| k.len() == 16 && text == #[trigger] uuid_text(k)
}

/// Whether a text is as long as a UUID and says version 4 and the variant of RFC 4122.
pub open spec fn says_version_4(text: Seq<char>) -> bool {
    &&& text.len() == 36
    &&& text[14] == '4'
    &&& text[19] == '8' || text[19] == '9' || text[19] == 'a' || text[19] == 'b'
}

/// Sixteen bytes with version 4 (random) and the variant of RFC 4122 set in them.
pub open spec fn stamped(k: Seq<u8>) -> Seq<u8> {
    k.update(6, (k[6] % 16 + 64) as u8).update(8, (k[8] % 64 + 128) as u8)
}

/// The MD5 digest of bytes, as `compute` of the crate md5 gives it.
pub uninterp spec fn md5_digest(bytes: Seq<u8>) -> Seq<u8>;

/// `compute` of the crate md5: sixteen bytes that are a function of the bytes handed in.
#[verifier::external_body]
pub(crate) fn md5_compute(bytes: &[u8]) -> (digest: [u8; 16])
    ensures
        digest@ == md5_digest(bytes@),
{
    md5::compute(bytes).0
}

/// `Builder::set_version` of the crate uuid, for version 4, on a builder made from sixteen bytes:
/// the upper half of byte 6 becomes 4, and all other bits stay.
#[verifier::external_body]
pub(crate) fn with_version(key: [u8; 16]) -> (out: [u8; 16])
    ensures
        out@ == key@.update(6, (key@[6] % 16 + 64) as u8),
{
    let mut builder = uuid::Builder::from_bytes(key);
    builder.set_version(uuid::Version::Random);
    builder.into_uuid().into_bytes()
}

/// `Builder::set_variant` of the crate uuid, for RFC 4122, on a builder made from sixteen bytes:
/// the two upper bits of byte 8 become 10, and all other bits stay.
#[verifier::external_body]
pub(crate) fn with_variant(key: [u8; 16]) -> (out: [u8; 16])
    ensures
        out@ == key@.update(8, (key@[8] % 64 + 128) as u8),
{
    let mut builder = uuid::Builder::from_bytes(key);
    builder.set_variant(uuid::Variant::RFC4122);
    builder.into_uuid().into_bytes()
}

/// `Uuid::from_bytes` of the crate uuid and the `to_string` of its `Display`: the hyphenated text
/// of the sixteen bytes, in lower case.
#[verifier::external_body]
pub(crate) fn hyphenated(key: [u8; 16]) -> (out: String)
    ensures
        out@ == uuid_text(key@),
{
    uuid::Uuid::from_bytes(key).to_string()
}

/// The UUID that a digest of sixteen bytes makes: the digest, marked as version 4.
pub fn uuid_of_digest(digest: [u8; 16]) -> (out: String)
    ensures
        out@ == uuid_text(stamped(digest@)),
        is_uuid(out@),
        says_version_4(out@),
{
    proof {
        law_stamped_text_has_version_and_variant(digest@);
    }
    hyphenated(with_variant(with_version(digest)))
}

/// Puts the bytes `from..to` behind a text, each as two digits in base sixteen.
pub fn push_hex_pairs(out: &mut String, bytes: &[u8], from: usize, to: usize)
    requires
        from <= to <= bytes@.len(),
    ensures
        final(out)@ == old(out)@ + hex_pairs(bytes@.subrange(from as int, to as int)),
{
    let mut i: usize = from;
    let ghost start = out@;
    assert(start + hex_pairs(bytes@.subrange(from as int, from as int)) =~= start);
    while i < to
        invariant
            from <= i <= to <= bytes@.len(),
            out@ == start + hex_pairs(bytes@.subrange(from as int, i as int)),
        decreases to - i,
    {
        push_hex_pair(out, bytes[i]);
        assert(bytes@.subrange(from as int, i + 1).drop_last() =~= bytes@.subrange(
            from as int,
            i as int,
        ));
        i += 1;
        assert(out@ =~= start + hex_pairs(bytes@.subrange(from as int, i as int)));
    }
}

/// Writes the first sixteen bytes as a UUID.
pub fn key_text(bytes: &[u8]) -> (out: String)
    requires
        bytes@.len() >= 16,
    ensures
        out@ == uuid_text(bytes@),
{
    let mut out = String::new();
    push_hex_pairs(&mut out, bytes, 0, 4);
    out.push('-');
    push_hex_pairs(&mut out, bytes, 4, 6);
    out.push('-');
    push_hex_pairs(&mut out, bytes, 6, 8);
    out.push('-');
    push_hex_pairs(&mut out, bytes, 8, 10);
    out.push('-');
    push_hex_pairs(&mut out, bytes, 10, 16);
    assert(out@ =~= uuid_text(bytes@));
    out
}

/// Each byte takes two characters.
pub proof fn lemma_hex_pairs(b: Seq<u8>)
    ensures
        hex_pairs(b).len() == 2 * b.len(),
        forall|i: int|
            0 <= i < b.len() ==> hex_pairs(b)[2 * i] == digit((#[trigger] b[i] / 16) as int)
                && hex_pairs(b)[2 * i + 1] == digit((b[i] % 16) as int),
    decreases b.len(),
{
    if b.len() > 0 {
        lemma_hex_pairs(b.drop_last());
        assert forall|i: int| 0 <= i < b.len() implies hex_pairs(b)[2 * i] == digit(
            (#[trigger] b[i] / 16) as int,
        ) && hex_pairs(b)[2 * i + 1] == digit((b[i] % 16) as int) by {
            if i < b.len() - 1 {
                assert(b.drop_last()[i] == b[i]);
            }
        }
    }
}

/// Bytes put one behind the other have their digits one behind the other.
pub proof fn lemma_hex_pairs_add(a: Seq<u8>, b: Seq<u8>)
    ensures
        hex_pairs(a + b) == hex_pairs(a) + hex_pairs(b),
    decreases b.len(),
{
    if b.len() == 0 {
        assert(a + b =~= a);
        assert(hex_pairs(a) + hex_pairs(b) =~= hex_pairs(a));
    } else {
        assert((a + b).drop_last() =~= a + b.drop_last());
        lemma_hex_pairs_add(a, b.drop_last());
        assert(hex_pairs(a + b) =~= hex_pairs(a) + hex_pairs(b));
    }
}

proof fn lemma_hex_pairs_unique(a: Seq<u8>, b: Seq<u8>)
    requires
        hex_pairs(a) == hex_pairs(b),
    ensures
        a == b,
{
    lemma_hex_pairs(a);
    lemma_hex_pairs(b);
    assert forall|i: int| 0 <= i < a.len() implies a[i] == b[i] by {
        let x = a[i];
        let y = b[i];
        assert(digit((x / 16) as int) == digit((y / 16) as int));
        assert(digit((x % 16) as int) == digit((y % 16) as int));
    }
    assert(a =~= b);
}

proof fn lemma_uuid_groups(k: Seq<u8>)
    requires
        k.len() >= 16,
    ensures
        uuid_text(k).len() == 36,
        uuid_text(k).subrange(0, 8) == hex_pairs(k.subrange(0, 4)),
        uuid_text(k).subrange(9, 13) == hex_pairs(k.subrange(4, 6)),
        uuid_text(k).subrange(14, 18) == hex_pairs(k.subrange(6, 8)),
        uuid_text(k).subrange(19, 23) == hex_pairs(k.subrange(8, 10)),
        uuid_text(k).subrange(24, 36) == hex_pairs(k.subrange(10, 16)),
{
    lemma_hex_pairs(k.subrange(0, 4));
    lemma_hex_pairs(k.subrange(4, 6));
    lemma_hex_pairs(k.subrange(6, 8));
    lemma_hex_pairs(k.subrange(8, 10));
    lemma_hex_pairs(k.subrange(10, 16));
    let t = uuid_text(k);
    assert(t.subrange(0, 8) =~= hex_pairs(k.subrange(0, 4)));
    assert(t.subrange(9, 13) =~= hex_pairs(k.subrange(4, 6)));
    assert(t.subrange(14, 18) =~= hex_pairs(k.subrange(6, 8)));
    assert(t.subrange(19, 23) =~= hex_pairs(k.subrange(8, 10)));
    assert(t.subrange(24, 36) =~= hex_pairs(k.subrange(10, 16)));
}

/// Different keys have different texts.
pub proof fn law_uuid_text_is_unique(a: Seq<u8>, b: Seq<u8>)
    requires
        a.len() == 16,
        b.len() == 16,
        uuid_text(a) == uuid_text(b),
    ensures
        a == b,
{
    lemma_uuid_groups(a);
    lemma_uuid_groups(b);
    lemma_hex_pairs_unique(a.subrange(0, 4), b.subrange(0, 4));
    lemma_hex_pairs_unique(a.subrange(4, 6), b.subrange(4, 6));
    lemma_hex_pairs_unique(a.subrange(6, 8), b.subrange(6, 8));
    lemma_hex_pairs_unique(a.subrange(8, 10), b.subrange(8, 10));
    lemma_hex_pairs_unique(a.subrange(10, 16), b.subrange(10, 16));
    assert(a =~= a.subrange(0, 4) + a.subrange(4, 6) + a.subrange(6, 8) + a.subrange(8, 10)
        + a.subrange(10, 16));
    assert(b =~= b.subrange(0, 4) + b.subrange(4, 6) + b.subrange(6, 8) + b.subrange(8, 10)
        + b.subrange(10, 16));
}

/// The text of every stamped key says version 4 and the variant of RFC 4122.
pub proof fn law_stamped_text_has_version_and_variant(k: Seq<u8>)
    requires
        k.len() == 16,
    ensures
        says_version_4(uuid_text(stamped(k))),
{
    let s = stamped(k);
    lemma_uuid_groups(s);
    lemma_hex_pairs(s.subrange(6, 8));
    lemma_hex_pairs(s.subrange(8, 10));
    assert(uuid_text(s)[14] == uuid_text(s).subrange(14, 18)[0]);
    assert(uuid_text(s)[19] == uuid_text(s).subrange(19, 23)[0]);
    assert(s.subrange(6, 8)[0] == s[6]);
    assert(s.subrange(8, 10)[0] == s[8]);
}

/// Where the two digits of byte `i` stand in a UUID: two places for each byte before it, and one
/// for each hyphen.
pub open spec fn uuid_at(i: int) -> int {
    if i < 4 {
        2 * i
    } else if i < 6 {
        2 * i + 1
    } else if i < 8 {
        2 * i + 2
    } else if i < 10 {
        2 * i + 3
    } else {
        2 * i + 4
    }
}

/// A UUID is read back as its key: it has 36 characters, hyphens at their four places, and for each
/// byte two digits in base sixteen that stand for it.
pub proof fn law_uuid_text_is_read_back(k: Seq<u8>, i: int)
    requires
        k.len() >= 16,
        0 <= i < 16,
    ensures
        ({
            let t = uuid_text(k);
            &&& t.len() == 36
            &&& t[8] == '-' && t[13] == '-' && t[18] == '-' && t[23] == '-'
            &&& hex_value(t[uuid_at(i)]) >= 0
            &&& hex_value(t[uuid_at(i) + 1]) >= 0
            &&& hex_value(t[uuid_at(i)]) * 16 + hex_value(t[uuid_at(i) + 1]) == k[i]
        }),
{
    let t = uuid_text(k);
    lemma_uuid_groups(k);
    let (from, to, at): (int, int, int) = if i < 4 {
        (0, 4, 0)
    } else if i < 6 {
        (4, 6, 9)
    } else if i < 8 {
        (6, 8, 14)
    } else if i < 10 {
        (8, 10, 19)
    } else {
        (10, 16, 24)
    };
    let part = k.subrange(from, to);
    lemma_hex_pairs(part);
    lemma_hex_pairs(k.subrange(0, 4));
    lemma_hex_pairs(k.subrange(4, 6));
    lemma_hex_pairs(k.subrange(6, 8));
    lemma_hex_pairs(k.subrange(8, 10));
    let digits = hex_pairs(part);
    assert(t.subrange(at, at + 2 * (to - from)) == digits);
    assert(part[i - from] == k[i]);
    assert(uuid_at(i) == at + 2 * (i - from));
    assert(t.subrange(at, at + 2 * (to - from))[2 * (i - from)] == t[uuid_at(i)]);
    assert(t.subrange(at, at + 2 * (to - from))[2 * (i - from) + 1] == t[uuid_at(i) + 1]);
    assert(hex_value(digit((k[i] / 16) as int)) == k[i] / 16);
    assert(hex_value(digit((k[i] % 16) as int)) == k[i] % 16);
}

/// Stamping a key changes no byte but two, and of those only the bits for the version and the
/// variant.
pub proof fn law_stamping_keeps_the_rest(k: Seq<u8>, i: int)
    requires
        k.len() == 16,
        0 <= i < 16,
    ensures
        stamped(k).len() == 16,
        i != 6 && i != 8 ==> stamped(k)[i] == k[i],
        stamped(k)[6] / 16 == 4,
        stamped(k)[6] % 16 == k[6] % 16,
        stamped(k)[8] / 64 == 2,
        stamped(k)[8] % 64 == k[8] % 64,
{
}

} // verus!
