use vstd::prelude::*;
use crate::text::string_of;

verus! {

pub const FNV_OFFSET: u64 = 0xcbf29ce484222325u64;

pub const FNV_PRIME: u64 = 0x100000001b3u64;

/// One FNV-1a round: mix a byte in, then multiply modulo 2^64.
pub open spec fn fnv1a_round(h: u64, b: u8) -> u64 {
    (((h ^ (b as u64)) as nat * FNV_PRIME as nat) % 0x1_0000_0000_0000_0000) as u64
}

/// FNV-1a of `bytes`, starting from the state `h`.
pub open spec fn fnv1a_from(h: u64, bytes: Seq<u8>) -> u64
    decreases bytes.len(),
{
    if bytes.len() == 0 {
        h
    } else {
        fnv1a_from(fnv1a_round(h, bytes[0]), bytes.drop_first())
    }
}

/// The 64-bit FNV-1a hash of `bytes`.
pub open spec fn fnv1a(bytes: Seq<u8>) -> u64 {
    fnv1a_from(FNV_OFFSET, bytes)
}

/// The lower-case hexadecimal digit of `d` (below 16).
pub open spec fn hex_digit(d: u64) -> char {
    if d < 10 {
        ((d + 48) as u8) as char
    } else {
        ((d + 87) as u8) as char
    }
}

/// The `i`-th hexadecimal digit of `h` written with 16 digits, from the left.
pub open spec fn nibble(h: u64, i: int) -> u64 {
    (h >> ((60 - 4 * i) as u64)) & 0xf
}

/// The first eight of the sixteen zero-padded lower-case hexadecimal digits of `h`.
pub open spec fn hex8(h: u64) -> Seq<char> {
    Seq::new(8, |i: int| hex_digit(nibble(h, i)))
}

/// The short name of a project path: the first eight hexadecimal digits of
/// the FNV-1a hash of the path's UTF-8 bytes.
pub open spec fn spec_short_hash(path: Seq<char>) -> Seq<char> {
    hex8(fnv1a(vstd::utf8::encode_utf8(path)))
}

/// A stable, short, non-cryptographic name for a project path, used to keep
/// the layers of projects that share a directory name apart.
pub fn short_hash(path: &str) -> (r: String)
    ensures
        r@ == spec_short_hash(path@),
        r@.len() == 8,
{
    let bytes = path.as_bytes();
    let mut hash: u64 = FNV_OFFSET;
    let mut i: usize = 0;
    assert(bytes@.skip(0) =~= bytes@);
    while i < bytes.len()
        invariant
            i <= bytes@.len(),
            bytes@ == vstd::utf8::encode_utf8(path@),
            fnv1a_from(hash, bytes@.skip(i as int)) == fnv1a(bytes@),
        decreases bytes.len() - i,
    {
        let b = bytes[i];
        assert(bytes@.skip(i as int).drop_first() =~= bytes@.skip(i + 1));
        hash = (hash ^ (b as u64)).wrapping_mul(FNV_PRIME);
        i = i + 1;
    }
    assert(bytes@.skip(i as int) =~= Seq::<u8>::empty());
    let mut digits: Vec<char> = Vec::new();
    let mut k: u64 = 0;
    while k < 8
        invariant
            k <= 8,
            digits@.len() == k,
            hash == fnv1a(vstd::utf8::encode_utf8(path@)),
            forall|j: int| 0 <= j < k ==> digits@[j] == hex_digit(nibble(hash, j)),
        decreases 8 - k,
    {
        let sh: u64 = 60 - 4 * k;
        let d = (hash >> sh) & 0xf;
        assert(d < 16) by (bit_vector)
            requires
                d == (hash >> sh) & 0xf,
        ;
        let c = if d < 10 {
            (d as u8 + 48u8) as char
        } else {
            (d as u8 + 87u8) as char
        };
        digits.push(c);
        k = k + 1;
    }
    assert(digits@ =~= hex8(hash));
    string_of(&digits)
}

/// A short hash is eight lower-case hexadecimal digits, whatever the path.
pub proof fn lemma_short_hash_is_hex(path: Seq<char>)
    ensures
        spec_short_hash(path).len() == 8,
        forall|i: int|
            0 <= i < 8 ==> ('0' <= #[trigger] spec_short_hash(path)[i] <= '9') || ('a'
                <= spec_short_hash(path)[i] <= 'f'),
{
    let h = fnv1a(vstd::utf8::encode_utf8(path));
    assert forall|i: int| 0 <= i < 8 implies ('0' <= #[trigger] spec_short_hash(path)[i] <= '9')
        || ('a' <= spec_short_hash(path)[i] <= 'f') by {
        let sh = (60 - 4 * i) as u64;
        let d = (h >> sh) & 0xf;
        assert(d < 16) by (bit_vector)
            requires
                d == (h >> sh) & 0xf,
        ;
        assert(nibble(h, i) == d);
    }
}

} // verus!
