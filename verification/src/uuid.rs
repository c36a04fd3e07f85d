//! Player ids of a server in offline mode, computed from the player's name.

use vstd::prelude::*;
use vstd::string::*;
use vstd::utf8::{encode_utf8, encode_utf8_decode_utf8};

verus! {

/// The MD5 digest of `data`.
pub uninterp spec fn md5_of(data: Seq<u8>) -> Seq<u8>;

/// Calls `md5::Md5::digest`: the digest depends on the data alone.
#[verifier::external_body]
fn md5_digest(data: &[u8]) -> (r: [u8; 16])
    ensures
        r@ == md5_of(data@),
{
    <md5::Md5 as md5::Digest>::digest(data).into()
}

/// The hexadecimal digit of a number below sixteen, in small letters.
pub open spec fn hex_char(d: u8) -> char {
    if d < 10 {
        (48 + d) as char
    } else {
        (87 + d) as char
    }
}

/// The bytes `from..to` in hexadecimal, two digits each.
pub open spec fn hex_range(bytes: Seq<u8>, from: int, to: int) -> Seq<char>
    decreases to - from,
{
    if from >= to {
        Seq::empty()
    } else {
        hex_range(bytes, from, to - 1).push(hex_char(bytes[to - 1] / 16)).push(
            hex_char(bytes[to - 1] % 16),
        )
    }
}

/// A digest with the version and the variant of a name-based id written over
/// it.
pub open spec fn stamped(digest: Seq<u8>) -> Seq<u8> {
    digest.update(6, (digest[6] & 0x0f) | 0x30).update(8, (digest[8] & 0x3f) | 0x80)
}

/// The id made of a digest, in groups of 8, 4, 4, 4 and 12 hexadecimal digits.
pub open spec fn uuid_text(digest: Seq<u8>) -> Seq<char> {
    let b = stamped(digest);
    hex_range(b, 0, 4) + seq!['-'] + hex_range(b, 4, 6) + seq!['-'] + hex_range(b, 6, 8)
        + seq!['-'] + hex_range(b, 8, 10) + seq!['-'] + hex_range(b, 10, 16)
}

/// The bytes that the id of the player `name` is the digest of.
pub open spec fn hashed(name: Seq<char>) -> Seq<u8> {
    encode_utf8("OfflinePlayer:"@ + name)
}

/// The id of the player `name` on a server in offline mode.
pub open spec fn offline_id(name: Seq<char>) -> Seq<char> {
    uuid_text(md5_of(hashed(name)))
}

fn hex_digit(d: u8) -> (c: char)
    requires
        d < 16,
    ensures
        c == hex_char(d),
{
    if d < 10 {
        (48 + d) as char
    } else {
        (87 + d) as char
    }
}

/// Writes the bytes `from..to` to the end of `out` in hexadecimal.
fn push_hex(out: &mut String, bytes: &[u8; 16], from: usize, to: usize)
    requires
        from <= to <= 16,
    ensures
        final(out)@ == old(out)@ + hex_range(bytes@, from as int, to as int),
{
    let mut i: usize = from;
    assert(out@ + hex_range(bytes@, from as int, from as int) =~= out@);
    while i < to
        invariant
            from <= i <= to <= 16,
            out@ == old(out)@ + hex_range(bytes@, from as int, i as int),
        decreases to - i,
    {
        out.push(hex_digit(bytes[i] / 16));
        out.push(hex_digit(bytes[i] % 16));
        i += 1;
        assert(out@ =~= old(out)@ + hex_range(bytes@, from as int, i as int));
    }
}

/// The id made of a digest.
pub fn uuid_from_digest(digest: [u8; 16]) -> (r: String)
    ensures
        r@ == uuid_text(digest@),
{
    let mut bytes: [u8; 16] = digest;
    bytes[6] = (bytes[6] & 0x0f) | 0x30;
    bytes[8] = (bytes[8] & 0x3f) | 0x80;
    assert(bytes@ =~= stamped(digest@));
    let mut r: String = String::new();
    push_hex(&mut r, &bytes, 0, 4);
    r.push('-');
    push_hex(&mut r, &bytes, 4, 6);
    r.push('-');
    push_hex(&mut r, &bytes, 6, 8);
    r.push('-');
    push_hex(&mut r, &bytes, 8, 10);
    r.push('-');
    push_hex(&mut r, &bytes, 10, 16);
    assert(r@ =~= uuid_text(digest@));
    r
}

/// The id of the player `name` on a server in offline mode: a version 3 id of
/// the MD5 digest of `OfflinePlayer:` and the name.
pub fn offline_uuid(name: &str) -> (r: String)
    ensures
        r@ == offline_id(name@),
        is_version_3_id(r@),
{
    let text: String = "OfflinePlayer:".to_owned().concat(name);
    let digest: [u8; 16] = md5_digest(text.as_str().as_bytes());
    proof {
        law_uuid_form(digest@);
    }
    uuid_from_digest(digest)
}

// ---------- Laws ----------

/// A small hexadecimal digit.
pub open spec fn is_hex(c: char) -> bool {
    '0' <= c <= '9' || 'a' <= c <= 'f'
}

/// Bytes in hexadecimal are two digits each.
pub proof fn lemma_hex_range(bytes: Seq<u8>, from: int, to: int)
    requires
        0 <= from <= to <= bytes.len(),
    ensures
        hex_range(bytes, from, to).len() == 2 * (to - from),
        forall|i: int|
            0 <= i < 2 * (to - from) ==> is_hex(#[trigger] hex_range(bytes, from, to)[i]),
        from < to ==> hex_range(bytes, from, to)[0] == hex_char(bytes[from] / 16),
    decreases to - from,
{
    if from < to {
        lemma_hex_range(bytes, from, to - 1);
    }
}

/// The form of a version 3 id: 36 characters, with dashes at places 8, 13, 18
/// and 23, small hexadecimal digits elsewhere, the version `3` at place 14 and
/// the variant `8`, `9`, `a` or `b` at place 19.
pub open spec fn is_version_3_id(id: Seq<char>) -> bool {
    &&& id.len() == 36
    &&& forall|i: int|
        0 <= i < 36 ==> if i == 8 || i == 13 || i == 18 || i == 23 {
            #[trigger] id[i] == '-'
        } else {
            is_hex(id[i])
        }
    &&& id[14] == '3'
    &&& id[19] == '8' || id[19] == '9' || id[19] == 'a' || id[19] == 'b'
}

/// The id made of any digest has the form of a version 3 id.
pub proof fn law_uuid_form(digest: Seq<u8>)
    requires
        digest.len() == 16,
    ensures
        is_version_3_id(uuid_text(digest)),
{
    let b = stamped(digest);
    lemma_hex_range(b, 0, 4);
    lemma_hex_range(b, 4, 6);
    lemma_hex_range(b, 6, 8);
    lemma_hex_range(b, 8, 10);
    lemma_hex_range(b, 10, 16);
    let v = digest[6];
    let w = digest[8];
    assert(((v & 0x0f) | 0x30) / 16 == 3) by (bit_vector);
    assert(8 <= ((w & 0x3f) | 0x80) / 16 <= 11) by (bit_vector);
    let u = uuid_text(digest);
    assert(u[14] == hex_range(b, 6, 8)[0]);
    assert(u[19] == hex_range(b, 8, 10)[0]);
    assert forall|i: int| 0 <= i < 36 implies if i == 8 || i == 13 || i == 18 || i == 23 {
        #[trigger] u[i] == '-'
    } else {
        is_hex(u[i])
    } by {
        if i < 8 {
            assert(u[i] == hex_range(b, 0, 4)[i]);
        } else if 8 < i < 13 {
            assert(u[i] == hex_range(b, 4, 6)[i - 9]);
        } else if 13 < i < 18 {
            assert(u[i] == hex_range(b, 6, 8)[i - 14]);
        } else if 18 < i < 23 {
            assert(u[i] == hex_range(b, 8, 10)[i - 19]);
        } else if 23 < i {
            assert(u[i] == hex_range(b, 10, 16)[i - 24]);
        }
    }
}

/// A name has one id, and every character of a name counts, capitals as well as
/// small letters: different names are hashed as different bytes.
pub proof fn law_names_are_hashed_apart(a: Seq<char>, b: Seq<char>)
    ensures
        a == b ==> offline_id(a) == offline_id(b),
        hashed(a) == hashed(b) <==> a == b,
{
    if hashed(a) == hashed(b) {
        encode_utf8_decode_utf8("OfflinePlayer:"@ + a);
        encode_utf8_decode_utf8("OfflinePlayer:"@ + b);
        let n = "OfflinePlayer:"@.len() as int;
        assert(("OfflinePlayer:"@ + a).skip(n) =~= a);
        assert(("OfflinePlayer:"@ + b).skip(n) =~= b);
    }
}

proof fn lemma_hex_chars(x: u8, y: u8)
    ensures
        hex_char(x / 16) == hex_char(y / 16) && hex_char(x % 16) == hex_char(y % 16) ==> x == y,
{
}

proof fn lemma_hex_range_tells(a: Seq<u8>, b: Seq<u8>, from: int, to: int)
    requires
        0 <= from <= to <= a.len(),
        a.len() == b.len(),
        hex_range(a, from, to) == hex_range(b, from, to),
    ensures
        forall|i: int| from <= i < to ==> a[i] == b[i],
    decreases to - from,
{
    if from < to {
        let x = hex_range(a, from, to);
        let y = hex_range(b, from, to);
        lemma_hex_range(a, from, to);
        lemma_hex_range(a, from, to - 1);
        lemma_hex_range(b, from, to - 1);
        assert(x.drop_last().drop_last() =~= hex_range(a, from, to - 1));
        assert(y.drop_last().drop_last() =~= hex_range(b, from, to - 1));
        assert(x[x.len() - 1] == hex_char(a[to - 1] % 16));
        assert(y[y.len() - 1] == hex_char(b[to - 1] % 16));
        assert(x[x.len() - 2] == hex_char(a[to - 1] / 16));
        assert(y[y.len() - 2] == hex_char(b[to - 1] / 16));
        lemma_hex_chars(a[to - 1], b[to - 1]);
        lemma_hex_range_tells(a, b, from, to - 1);
    }
}

/// An id tells all of its digest but for the bits of version and variant: ids
/// are alike exactly where the digests are, apart from those.
pub proof fn law_ids_tell_digests_apart(a: Seq<u8>, b: Seq<u8>)
    requires
        a.len() == 16,
        b.len() == 16,
    ensures
        uuid_text(a) == uuid_text(b) <==> stamped(a) == stamped(b),
{
    if uuid_text(a) == uuid_text(b) {
        let x = stamped(a);
        let y = stamped(b);
        lemma_groups(a);
        lemma_groups(b);
        lemma_hex_range_tells(x, y, 0, 4);
        lemma_hex_range_tells(x, y, 4, 6);
        lemma_hex_range_tells(x, y, 6, 8);
        lemma_hex_range_tells(x, y, 8, 10);
        lemma_hex_range_tells(x, y, 10, 16);
        assert(x =~= y);
    }
}

/// Where each group of digits stands in an id.
pub proof fn lemma_groups(digest: Seq<u8>)
    requires
        digest.len() == 16,
    ensures
        uuid_text(digest).subrange(0, 8) == hex_range(stamped(digest), 0, 4),
        uuid_text(digest).subrange(9, 13) == hex_range(stamped(digest), 4, 6),
        uuid_text(digest).subrange(14, 18) == hex_range(stamped(digest), 6, 8),
        uuid_text(digest).subrange(19, 23) == hex_range(stamped(digest), 8, 10),
        uuid_text(digest).subrange(24, 36) == hex_range(stamped(digest), 10, 16),
{
    let b = stamped(digest);
    let u = uuid_text(digest);
    lemma_hex_range(b, 0, 4);
    lemma_hex_range(b, 4, 6);
    lemma_hex_range(b, 6, 8);
    lemma_hex_range(b, 8, 10);
    lemma_hex_range(b, 10, 16);
    assert(u.subrange(0, 8) =~= hex_range(b, 0, 4));
    assert(u.subrange(9, 13) =~= hex_range(b, 4, 6));
    assert(u.subrange(14, 18) =~= hex_range(b, 6, 8));
    assert(u.subrange(19, 23) =~= hex_range(b, 8, 10));
    assert(u.subrange(24, 36) =~= hex_range(b, 10, 16));
}

} // verus!
