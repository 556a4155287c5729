//! Content hashing: a 160-bit digest, hex-encoded in lower case, is
//! computed for each file and compared case-insensitively against the
//! manifest's expected hash.

use vstd::prelude::*;
use crate::text;
use sha1::Digest;

verus! {

/// The 20-byte SHA-1 digest of a byte sequence, a function of the bytes
/// alone. The algorithm itself is not restated here.
pub uninterp spec fn sha1_of(data: Seq<u8>) -> Seq<u8>;

/// Relies on the sha1 crate's one-shot `Sha1::digest` (the `Digest`
/// trait): it returns the SHA-1 digest of `data`, 20 bytes long
/// (`Sha1Core` has output size `U20`), depending on `data` alone.
#[verifier::external_body]
fn sha1_digest(data: &[u8]) -> (r: Vec<u8>)
    ensures
        r@ == sha1_of(data@),
        r@.len() == 20,
{
    sha1::Sha1::digest(data).to_vec()
}

/// The lower-case hex character for one value below 16.
pub open spec fn spec_hex_digit(n: u8) -> char {
    if n == 0 {
        '0'
    } else if n == 1 {
        '1'
    } else if n == 2 {
        '2'
    } else if n == 3 {
        '3'
    } else if n == 4 {
        '4'
    } else if n == 5 {
        '5'
    } else if n == 6 {
        '6'
    } else if n == 7 {
        '7'
    } else if n == 8 {
        '8'
    } else if n == 9 {
        '9'
    } else if n == 10 {
        'a'
    } else if n == 11 {
        'b'
    } else if n == 12 {
        'c'
    } else if n == 13 {
        'd'
    } else if n == 14 {
        'e'
    } else {
        'f'
    }
}

fn hex_digit(n: u8) -> (r: char)
    requires
        n < 16,
    ensures
        r == spec_hex_digit(n),
{
    match n {
        0 => '0',
        1 => '1',
        2 => '2',
        3 => '3',
        4 => '4',
        5 => '5',
        6 => '6',
        7 => '7',
        8 => '8',
        9 => '9',
        10 => 'a',
        11 => 'b',
        12 => 'c',
        13 => 'd',
        14 => 'e',
        _ => 'f',
    }
}

/// Two lower-case hex characters for one byte, high nibble first.
pub open spec fn spec_hex_byte(b: u8) -> Seq<char> {
    seq![spec_hex_digit(b / 16), spec_hex_digit(b % 16)]
}

/// Lower-case hex encoding of a byte sequence.
pub open spec fn spec_hex(bytes: Seq<u8>) -> Seq<char>
    decreases bytes.len(),
{
    if bytes.len() == 0 {
        Seq::empty()
    } else {
        spec_hex_byte(bytes[0]) + spec_hex(bytes.skip(1))
    }
}

pub fn hex_lower(bytes: &Vec<u8>) -> (r: Vec<char>)
    ensures
        r@ == spec_hex(bytes@),
{
    let mut r: Vec<char> = Vec::new();
    let mut i: usize = 0;
    proof {
        assert(bytes@.skip(0) =~= bytes@);
        assert(r@ + spec_hex(bytes@) =~= spec_hex(bytes@));
    }
    while i < bytes.len()
        invariant
            i <= bytes@.len(),
            spec_hex(bytes@) == r@ + spec_hex(bytes@.skip(i as int)),
        decreases bytes@.len() - i,
    {
        proof {
            assert(bytes@.skip(i as int).skip(1) =~= bytes@.skip(i + 1));
            assert(bytes@.skip(i as int)[0] == bytes@[i as int]);
        }
        let ghost old_r = r@;
        let b = bytes[i];
        r.push(hex_digit(b / 16));
        r.push(hex_digit(b % 16));
        proof {
            assert(old_r + (spec_hex_byte(bytes@[i as int]) + spec_hex(bytes@.skip(i + 1))) =~= r@
                + spec_hex(bytes@.skip(i + 1)));
        }
        i = i + 1;
    }
    proof {
        assert(bytes@.skip(bytes@.len() as int) =~= Seq::<u8>::empty());
        assert(r@ + Seq::<char>::empty() =~= r@);
    }
    r
}

/// The lower-case hex encoding of the SHA-1 digest of `data`: the hash a
/// verification run computes for a file whose content is `data`.
pub open spec fn spec_content_hash(data: Seq<u8>) -> Seq<char> {
    spec_hex(sha1_of(data))
}

pub fn content_hash_hex(data: &Vec<u8>) -> (r: Vec<char>)
    ensures
        r@ == spec_content_hash(data@),
{
    let digest = sha1_digest(data.as_slice());
    hex_lower(&digest)
}

/// The computed hash of `data` equals the expected hash, compared after
/// folding the expected hash to lower case.
pub open spec fn spec_hash_matches(expected: Seq<char>, data: Seq<u8>) -> bool {
    text::spec_lower(expected) == spec_content_hash(data)
}

pub fn hash_matches(expected: &Vec<char>, data: &Vec<u8>) -> (r: bool)
    ensures
        r == spec_hash_matches(expected@, data@),
{
    let computed = content_hash_hex(data);
    let folded = text::lower_chars(expected);
    text::eq_chars(&folded, &computed)
}

} // verus!
