//! Digests: the SHA-256 call and the hexadecimal form in which digests are
//! stored and compared throughout the ledger.

use vstd::prelude::*;
use sha2::Digest;
use sha2::Sha256;

verus! {

/// The SHA-256 digest of a string's bytes. The digest is a pure function of
/// the input, so it carries a name here rather than a definition; the only
/// facts known of it are the ones `sha256_chars` states.
pub uninterp spec fn sha256_of(s: Seq<char>) -> Seq<u8>;

/// Relies on `sha2::Sha256` (`new`, `update`, `finalize`): the 32-byte digest
/// depends on the input bytes alone.
#[verifier::external_body]
fn sha256_chars(data: &str) -> (r: Vec<u8>)
    ensures
        r@ == sha256_of(data@),
        r@.len() == 32,
{
    let mut hasher = Sha256::new();
    hasher.update(data.as_bytes());
    hasher.finalize().to_vec()
}

/// The sixteen uppercase hexadecimal digit characters, indexable by value.
pub const HEX_CHARS: [char; 16] = [
    '0',
    '1',
    '2',
    '3',
    '4',
    '5',
    '6',
    '7',
    '8',
    '9',
    'A',
    'B',
    'C',
    'D',
    'E',
    'F',
];

/// Uppercase hexadecimal rendering of a byte sequence, two characters per
/// byte, high nibble first.
pub open spec fn hex_chars(bytes: Seq<u8>) -> Seq<char>
    decreases bytes.len(),
{
    if bytes.len() == 0 {
        Seq::<char>::empty()
    } else {
        seq![
            HEX_CHARS@[(bytes.first() >> 4) as int],
            HEX_CHARS@[(bytes.first() & 0x0f) as int],
        ] + hex_chars(bytes.drop_first())
    }
}

/// The hexadecimal form of a byte sequence has two characters per byte.
pub proof fn lemma_hex_chars_len(bytes: Seq<u8>)
    ensures
        hex_chars(bytes).len() == 2 * bytes.len(),
    decreases bytes.len(),
{
    if bytes.len() > 0 {
        lemma_hex_chars_len(bytes.drop_first());
    }
}

/// Renders bytes as uppercase hexadecimal characters.
pub fn to_hex_upper(bytes: &Vec<u8>) -> (r: Vec<char>)
    ensures
        r@ == hex_chars(bytes@),
{
    let mut r: Vec<char> = Vec::new();
    let mut i: usize = 0;
    assert(bytes@.skip(0) =~= bytes@);
    while i < bytes.len()
        invariant
            i <= bytes@.len(),
            r@ + hex_chars(bytes@.skip(i as int)) == hex_chars(bytes@),
        decreases bytes@.len() - i,
    {
        let b = bytes[i];
        assert((b >> 4) < 16 && (b & 0x0f) < 16) by (bit_vector);
        proof {
            assert(bytes@.skip(i as int).first() == bytes@[i as int]);
            assert(bytes@.skip(i as int).drop_first() =~= bytes@.skip(i as int + 1));
        }
        r.push(HEX_CHARS[(b >> 4) as usize]);
        r.push(HEX_CHARS[(b & 0x0f) as usize]);
        i = i + 1;
    }
    assert(bytes@.skip(bytes@.len() as int) =~= Seq::<u8>::empty());
    assert(r@ =~= hex_chars(bytes@));
    r
}

/// The digest a ledger stores for a text: the uppercase hexadecimal form of
/// the text's SHA-256 digest.
pub open spec fn spec_hash_now(s: Seq<char>) -> Seq<char> {
    hex_chars(sha256_of(s))
}

/// Digest of a text, as the 64-character uppercase hexadecimal string that
/// blocks, ledgers and configurations store.
pub fn hash_now(data: String) -> (r: String)
    ensures
        r@ == spec_hash_now(data@),
        r@.len() == 64,
{
    let digest = sha256_chars(data.as_str());
    proof {
        lemma_hex_chars_len(digest@);
    }
    let hex = to_hex_upper(&digest);
    crate::text::chars_to_string(&hex)
}

} // verus!
