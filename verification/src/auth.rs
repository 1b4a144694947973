//! Offline ("non-premium") identity: the player UUID that the game derives
//! from the user name, and the placeholder access token.
use vstd::prelude::*;
use crate::text::{concat2, hex_digit, hex_digit_char, push_char};

verus! {

/// The MD5 digest of a byte sequence.
pub uninterp spec fn md5_digest(data: Seq<u8>) -> Seq<u8>;

/// `md5::Md5::digest` (the `md-5` crate that `uuid` hashes with): the
/// 16-byte MD5 digest of `data`.
#[verifier::external_body]
fn md5_of(data: &[u8]) -> (r: [u8; 16])
    ensures
        r@ == md5_digest(data@),
{
    <md5::Md5 as md5::Digest>::digest(data).into()
}

/// A name-based UUID made from an MD5 digest: the version nibble (high half
/// of byte 6) set to 3 and the variant bits (top two of byte 8) set to `10`,
/// every other byte kept.
pub open spec fn uuid_from_md5_spec(md5: Seq<u8>) -> Seq<u8> {
    md5.update(6, (md5[6] & 0x0f) | 0x30).update(8, (md5[8] & 0x3f) | 0x80)
}

/// `uuid::Builder::from_md5_bytes(..).into_uuid()`: sets the version to 3
/// (`(b6 & 0x0f) | 0x30`) and the variant to RFC 4122 (`(b8 & 0x3f) | 0x80`)
/// and keeps the other bytes, as the crate's `with_version` and
/// `with_variant` do.
#[verifier::external_body]
fn uuid_from_md5(md5: [u8; 16]) -> (r: [u8; 16])
    ensures
        r@ == uuid_from_md5_spec(md5@),
{
    uuid::Builder::from_md5_bytes(md5).into_uuid().into_bytes()
}

/// The name hashed for a player: `OfflinePlayer:<name>` in UTF-8.
pub open spec fn offline_name_bytes(username: Seq<char>) -> Seq<u8> {
    vstd::utf8::encode_utf8("OfflinePlayer:"@ + username)
}

/// The standard offline UUID of a player: the version 3 (MD5, name based)
/// UUID of `OfflinePlayer:<name>`, hashed without a namespace.
pub open spec fn offline_uuid_spec(username: Seq<char>) -> Seq<u8> {
    uuid_from_md5_spec(md5_digest(offline_name_bytes(username)))
}

/// The standard offline UUID of a player name (UUID version 3 of
/// `OfflinePlayer:<name>`): its version digit is 3 and its variant RFC 4122.
pub fn offline_uuid(username: &str) -> (r: [u8; 16])
    ensures
        r@ == offline_uuid_spec(username@),
        r@[6] / 16 == 3,
        r@[8] / 64 == 2,
{
    let name = concat2("OfflinePlayer:", username);
    let bytes = name.as_str().as_bytes();
    let digest = md5_of(bytes);
    let r = uuid_from_md5(digest);
    let b6 = digest[6];
    let b8 = digest[8];
    assert(((b6 & 0x0f) | 0x30) / 16 == 3) by (bit_vector);
    assert(((b8 & 0x3f) | 0x80) / 64 == 2) by (bit_vector);
    r
}

/// The fixed access token of offline mode.
pub fn offline_access_token() -> (r: &'static str)
    ensures
        r@ == "0"@,
{
    "0"
}

/// Two lower-case hexadecimal digits of a byte.
pub open spec fn hex_byte(b: u8) -> Seq<char> {
    seq![hex_digit((b / 16) as nat), hex_digit((b % 16) as nat)]
}

/// The bytes in lower-case hexadecimal, two digits each.
pub open spec fn hex_bytes(s: Seq<u8>) -> Seq<char>
    decreases s.len(),
{
    if s.len() == 0 {
        Seq::<char>::empty()
    } else {
        hex_bytes(s.drop_last()) + hex_byte(s.last())
    }
}

/// The hyphenated form of a UUID: groups of 4, 2, 2, 2 and 6 bytes in
/// lower-case hexadecimal, joined by `-`.
pub open spec fn hyphenated(b: Seq<u8>) -> Seq<char> {
    hex_bytes(b.subrange(0, 4)) + seq!['-'] + hex_bytes(b.subrange(4, 6)) + seq!['-'] + hex_bytes(
        b.subrange(6, 8),
    ) + seq!['-'] + hex_bytes(b.subrange(8, 10)) + seq!['-'] + hex_bytes(b.subrange(10, 16))
}

/// Writes a UUID in its hyphenated form (`xxxxxxxx-xxxx-xxxx-xxxx-xxxxxxxxxxxx`).
pub fn uuid_hyphenated(bytes: &[u8; 16]) -> (r: String)
    ensures
        r@ == hyphenated(bytes@),
{
    let mut r = String::new();
    let ghost b = bytes@;
    let mut i: usize = 0;
    while i < 16
        invariant
            i <= 16,
            b == bytes@,
            b.len() == 16,
            r@ == hyphenated_prefix(b, i as int),
        decreases 16 - i,
    {
        let byte = bytes[i];
        if i == 4 || i == 6 || i == 8 || i == 10 {
            push_char(&mut r, '-');
        }
        push_char(&mut r, hex_digit_char(byte / 16));
        push_char(&mut r, hex_digit_char(byte % 16));
        proof {
            lemma_hyphenated_prefix_step(b, i as int);
        }
        i = i + 1;
    }
    proof {
        lemma_hyphenated_prefix_full(b);
    }
    r
}

/// A hyphen stands before this byte of a UUID.
pub open spec fn group_start(k: int) -> bool {
    k == 4 || k == 6 || k == 8 || k == 10
}

/// The hyphenated text of the first `i` bytes.
pub open spec fn hyphenated_prefix(b: Seq<u8>, i: int) -> Seq<char>
    decreases i,
{
    if i <= 0 {
        Seq::<char>::empty()
    } else {
        hyphenated_prefix(b, i - 1) + (if group_start(i - 1) {
            seq!['-']
        } else {
            Seq::<char>::empty()
        }) + hex_byte(b[i - 1])
    }
}

proof fn lemma_hyphenated_prefix_step(b: Seq<u8>, i: int)
    requires
        0 <= i,
    ensures
        hyphenated_prefix(b, i + 1) == hyphenated_prefix(b, i) + (if group_start(i) {
            seq!['-']
        } else {
            Seq::<char>::empty()
        }) + hex_byte(b[i]),
{
}

proof fn lemma_hex_bytes_range(b: Seq<u8>, lo: int, hi: int)
    requires
        0 <= lo <= hi <= b.len(),
    ensures
        hex_bytes(b.subrange(lo, hi)).len() == 2 * (hi - lo),
    decreases hi - lo,
{
    if hi > lo {
        lemma_hex_bytes_range(b, lo, hi - 1);
        assert(b.subrange(lo, hi).drop_last() =~= b.subrange(lo, hi - 1));
    }
}

proof fn lemma_prefix_group(b: Seq<u8>, lo: int, hi: int)
    requires
        0 <= lo < hi <= b.len(),
        forall|k: int| lo < k < hi ==> !#[trigger] group_start(k),
    ensures
        hyphenated_prefix(b, hi) == hyphenated_prefix(b, lo + 1) + hex_bytes(b.subrange(lo + 1, hi)),
    decreases hi - lo,
{
    if hi == lo + 1 {
        assert(b.subrange(lo + 1, hi) =~= Seq::<u8>::empty());
        assert(hyphenated_prefix(b, lo + 1) + Seq::<char>::empty() =~= hyphenated_prefix(b, lo + 1));
    } else {
        lemma_prefix_group(b, lo, hi - 1);
        assert(b.subrange(lo + 1, hi).drop_last() =~= b.subrange(lo + 1, hi - 1));
        assert(hyphenated_prefix(b, hi) =~= hyphenated_prefix(b, hi - 1) + hex_byte(b[hi - 1]));
        assert(hyphenated_prefix(b, hi) =~= hyphenated_prefix(b, lo + 1) + hex_bytes(b.subrange(lo + 1, hi)));
    }
}

proof fn lemma_hyphenated_prefix_full(b: Seq<u8>)
    requires
        b.len() == 16,
    ensures
        hyphenated_prefix(b, 16) == hyphenated(b),
{
    lemma_prefix_group(b, 0, 4);
    lemma_prefix_group(b, 4, 6);
    lemma_prefix_group(b, 6, 8);
    lemma_prefix_group(b, 8, 10);
    lemma_prefix_group(b, 10, 16);
    assert(hyphenated_prefix(b, 0) =~= Seq::<char>::empty());
    assert(hyphenated_prefix(b, 1) =~= hex_byte(b[0]));
    assert(b.subrange(0, 1) =~= seq![b[0]]);
    lemma_hex_bytes_single(b[0]);
    assert(hex_bytes(b.subrange(0, 4)) =~= hex_bytes(b.subrange(0, 1)) + hex_bytes(b.subrange(1, 4))) by {
        lemma_hex_bytes_split(b, 0, 1, 4);
    }
    assert(hex_bytes(b.subrange(4, 6)) =~= hex_byte(b[4]) + hex_bytes(b.subrange(5, 6))) by {
        lemma_hex_bytes_split(b, 4, 5, 6);
        assert(b.subrange(4, 5) =~= seq![b[4]]);
        lemma_hex_bytes_single(b[4]);
    }
    assert(hex_bytes(b.subrange(6, 8)) =~= hex_byte(b[6]) + hex_bytes(b.subrange(7, 8))) by {
        lemma_hex_bytes_split(b, 6, 7, 8);
        assert(b.subrange(6, 7) =~= seq![b[6]]);
        lemma_hex_bytes_single(b[6]);
    }
    assert(hex_bytes(b.subrange(8, 10)) =~= hex_byte(b[8]) + hex_bytes(b.subrange(9, 10))) by {
        lemma_hex_bytes_split(b, 8, 9, 10);
        assert(b.subrange(8, 9) =~= seq![b[8]]);
        lemma_hex_bytes_single(b[8]);
    }
    assert(hex_bytes(b.subrange(10, 16)) =~= hex_byte(b[10]) + hex_bytes(b.subrange(11, 16))) by {
        lemma_hex_bytes_split(b, 10, 11, 16);
        assert(b.subrange(10, 11) =~= seq![b[10]]);
        lemma_hex_bytes_single(b[10]);
    }
    assert(hyphenated_prefix(b, 5) =~= hyphenated_prefix(b, 4) + seq!['-'] + hex_byte(b[4]));
    assert(hyphenated_prefix(b, 7) =~= hyphenated_prefix(b, 6) + seq!['-'] + hex_byte(b[6]));
    assert(hyphenated_prefix(b, 9) =~= hyphenated_prefix(b, 8) + seq!['-'] + hex_byte(b[8]));
    assert(hyphenated_prefix(b, 11) =~= hyphenated_prefix(b, 10) + seq!['-'] + hex_byte(b[10]));
    assert(hyphenated_prefix(b, 16) =~= hyphenated(b));
}

proof fn lemma_hex_bytes_single(x: u8)
    ensures
        hex_bytes(seq![x]) == hex_byte(x),
{
    assert(seq![x].drop_last() =~= Seq::<u8>::empty());
    assert(hex_bytes(Seq::<u8>::empty()) =~= Seq::<char>::empty());
    assert(Seq::<char>::empty() + hex_byte(x) =~= hex_byte(x));
}

proof fn lemma_hex_bytes_split(b: Seq<u8>, lo: int, mid: int, hi: int)
    requires
        0 <= lo <= mid <= hi <= b.len(),
    ensures
        hex_bytes(b.subrange(lo, hi)) == hex_bytes(b.subrange(lo, mid)) + hex_bytes(
            b.subrange(mid, hi),
        ),
    decreases hi - mid,
{
    if hi == mid {
        assert(b.subrange(mid, hi) =~= Seq::<u8>::empty());
        assert(hex_bytes(b.subrange(lo, mid)) + Seq::<char>::empty() =~= hex_bytes(b.subrange(lo, mid)));
    } else {
        lemma_hex_bytes_split(b, lo, mid, hi - 1);
        assert(b.subrange(lo, hi).drop_last() =~= b.subrange(lo, hi - 1));
        assert(b.subrange(mid, hi).drop_last() =~= b.subrange(mid, hi - 1));
        assert(hex_bytes(b.subrange(lo, hi)) =~= hex_bytes(b.subrange(lo, mid)) + hex_bytes(b.subrange(mid, hi)));
    }
}


proof fn lemma_hex_bytes_len(b: Seq<u8>)
    ensures
        hex_bytes(b).len() == 2 * b.len(),
    decreases b.len(),
{
    if b.len() > 0 {
        lemma_hex_bytes_len(b.drop_last());
    }
}

/// The hyphenated form of 16 bytes has 36 characters, hyphens at positions
/// 8, 13, 18 and 23, and the version digit of the UUID at position 14 (so
/// `3` for the name-based UUIDs of offline players).
pub proof fn lemma_hyphenated_shape(b: Seq<u8>)
    requires
        b.len() == 16,
    ensures
        hyphenated(b).len() == 36,
        hyphenated(b)[8] == '-',
        hyphenated(b)[13] == '-',
        hyphenated(b)[18] == '-',
        hyphenated(b)[23] == '-',
        hyphenated(b)[14] == hex_digit((b[6] / 16) as nat),
        b[6] / 16 == 3 ==> hyphenated(b)[14] == '3',
{
    lemma_hex_bytes_len(b.subrange(0, 4));
    lemma_hex_bytes_len(b.subrange(4, 6));
    lemma_hex_bytes_len(b.subrange(6, 8));
    lemma_hex_bytes_len(b.subrange(8, 10));
    lemma_hex_bytes_len(b.subrange(10, 16));
    lemma_hex_bytes_split(b, 6, 7, 8);
    lemma_hex_bytes_single(b[6]);
    assert(b.subrange(6, 7) =~= seq![b[6]]);
}

} // verus!
