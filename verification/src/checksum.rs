//! Checksums: the choice of hashing algorithm by name, and the text of a
//! digest in the result.
use vstd::prelude::*;
use crate::text::{chars_of, string_from_chars};

verus! {

/// The hashing algorithms of the checksums crate, in the order in which
/// that crate declares its `Algorithm` enum.
#[derive(PartialEq, Eq, Structural, Clone, Copy, Debug)]
pub enum HashAlgorithm {
    Sha1,
    Sha2224,
    Sha2256,
    Sha2384,
    Sha2512,
    Sha3256,
    Sha3512,
    Blake,
    Blake2b,
    Blake2s,
    Blake3,
    Crc64,
    Crc32,
    Crc32c,
    Crc16,
    Crc8,
    Md5,
    Md6128,
    Md6256,
    Md6512,
    Whirlpool,
    Xor8,
}

/// The position of an algorithm in the declaration of
/// `checksums::Algorithm` (its discriminant).
pub open spec fn position(a: HashAlgorithm) -> u8 {
    match a {
        HashAlgorithm::Sha1 => 0,
        HashAlgorithm::Sha2224 => 1,
        HashAlgorithm::Sha2256 => 2,
        HashAlgorithm::Sha2384 => 3,
        HashAlgorithm::Sha2512 => 4,
        HashAlgorithm::Sha3256 => 5,
        HashAlgorithm::Sha3512 => 6,
        HashAlgorithm::Blake => 7,
        HashAlgorithm::Blake2b => 8,
        HashAlgorithm::Blake2s => 9,
        HashAlgorithm::Blake3 => 10,
        HashAlgorithm::Crc64 => 11,
        HashAlgorithm::Crc32 => 12,
        HashAlgorithm::Crc32c => 13,
        HashAlgorithm::Crc16 => 14,
        HashAlgorithm::Crc8 => 15,
        HashAlgorithm::Md5 => 16,
        HashAlgorithm::Md6128 => 17,
        HashAlgorithm::Md6256 => 18,
        HashAlgorithm::Md6512 => 19,
        HashAlgorithm::Whirlpool => 20,
        HashAlgorithm::Xor8 => 21,
    }
}

impl HashAlgorithm {
    /// The algorithm at position `i` of the declaration.
    pub fn from_position(i: u8) -> (a: HashAlgorithm)
        requires
            i < 22,
        ensures
            position(a) == i,
    {
        if i == 0 {
            HashAlgorithm::Sha1
        } else if i == 1 {
            HashAlgorithm::Sha2224
        } else if i == 2 {
            HashAlgorithm::Sha2256
        } else if i == 3 {
            HashAlgorithm::Sha2384
        } else if i == 4 {
            HashAlgorithm::Sha2512
        } else if i == 5 {
            HashAlgorithm::Sha3256
        } else if i == 6 {
            HashAlgorithm::Sha3512
        } else if i == 7 {
            HashAlgorithm::Blake
        } else if i == 8 {
            HashAlgorithm::Blake2b
        } else if i == 9 {
            HashAlgorithm::Blake2s
        } else if i == 10 {
            HashAlgorithm::Blake3
        } else if i == 11 {
            HashAlgorithm::Crc64
        } else if i == 12 {
            HashAlgorithm::Crc32
        } else if i == 13 {
            HashAlgorithm::Crc32c
        } else if i == 14 {
            HashAlgorithm::Crc16
        } else if i == 15 {
            HashAlgorithm::Crc8
        } else if i == 16 {
            HashAlgorithm::Md5
        } else if i == 17 {
            HashAlgorithm::Md6128
        } else if i == 18 {
            HashAlgorithm::Md6256
        } else if i == 19 {
            HashAlgorithm::Md6512
        } else if i == 20 {
            HashAlgorithm::Whirlpool
        } else {
            HashAlgorithm::Xor8
        }
    }
}

/// The position (as `position` numbers them) of the algorithm that
/// `Algorithm::from_str` selects for `name`, or `None` when it rejects it.
pub uninterp spec fn algorithm_parse_result(name: Seq<char>) -> Option<u8>;

/// A character of an ASCII name as `from_str` compares it: `_` read as
/// `-`, upper-case letters as lower-case ones.
pub open spec fn normalized_char(c: char) -> char {
    if c == '_' {
        '-'
    } else if 'A' <= c <= 'Z' {
        ((c as u32) + 32) as char
    } else {
        c
    }
}

pub open spec fn all_ascii(s: Seq<char>) -> bool {
    forall|i: int| 0 <= i < s.len() ==> (s[i] as u32) < 128
}

/// An ASCII name as `from_str` compares it.
pub open spec fn normalized(name: Seq<char>) -> Seq<char> {
    name.map_values(|c: char| normalized_char(c))
}

/// The algorithm that a normalized spelling selects in
/// `Algorithm::from_str`, or `None` for a spelling it does not know.
pub open spec fn algorithm_for(n: Seq<char>) -> Option<HashAlgorithm> {
    if n == "sha-1"@ || n == "sha1"@ {
        Some(HashAlgorithm::Sha1)
    } else if n == "sha2256"@ || n == "sha2-256"@ || n == "sha-2-256"@ {
        Some(HashAlgorithm::Sha2256)
    } else if n == "sha2224"@ || n == "sha2-224"@ || n == "sha-2-224"@ {
        Some(HashAlgorithm::Sha2224)
    } else if n == "sha2384"@ || n == "sha2-384"@ || n == "sha-2-384"@ {
        Some(HashAlgorithm::Sha2384)
    } else if n == "sha2"@ || n == "sha-2"@ || n == "sha2512"@ || n == "sha2-512"@ || n
        == "sha-2-512"@ {
        Some(HashAlgorithm::Sha2512)
    } else if n == "sha3256"@ || n == "sha3-256"@ || n == "sha-3-256"@ {
        Some(HashAlgorithm::Sha3256)
    } else if n == "sha3"@ || n == "sha-3"@ || n == "sha3512"@ || n == "sha3-512"@ || n
        == "sha-3-512"@ {
        Some(HashAlgorithm::Sha3512)
    } else if n == "blake"@ {
        Some(HashAlgorithm::Blake)
    } else if n == "blake2"@ || n == "blake2b"@ {
        Some(HashAlgorithm::Blake2b)
    } else if n == "blake2s"@ {
        Some(HashAlgorithm::Blake2s)
    } else if n == "blake3"@ {
        Some(HashAlgorithm::Blake3)
    } else if n == "crc64"@ {
        Some(HashAlgorithm::Crc64)
    } else if n == "crc32c"@ || n == "crc32-c"@ || n == "crc32castagnoli"@ || n
        == "crc32-castagnoli"@ {
        Some(HashAlgorithm::Crc32c)
    } else if n == "crc32"@ {
        Some(HashAlgorithm::Crc32)
    } else if n == "crc16"@ {
        Some(HashAlgorithm::Crc16)
    } else if n == "crc8"@ {
        Some(HashAlgorithm::Crc8)
    } else if n == "md5"@ {
        Some(HashAlgorithm::Md5)
    } else if n == "md6128"@ || n == "md6-128"@ {
        Some(HashAlgorithm::Md6128)
    } else if n == "md6256"@ || n == "md6-256"@ {
        Some(HashAlgorithm::Md6256)
    } else if n == "md6512"@ || n == "md6-512"@ {
        Some(HashAlgorithm::Md6512)
    } else if n == "whirlpool"@ {
        Some(HashAlgorithm::Whirlpool)
    } else if n == "xor8"@ {
        Some(HashAlgorithm::Xor8)
    } else {
        None
    }
}

/// The error text of `Algorithm::from_str` for a name it does not accept.
pub open spec fn unknown_algorithm_text(name: Seq<char>) -> Seq<char> {
    "\""@ + name + "\" is not a recognised hashing algorithm"@
}

/// `Algorithm::from_str` (through `str::parse`) of the checksums crate,
/// with the selected `Algorithm` given by its discriminant (`as u8`; the
/// enum has 22 fieldless variants without explicit discriminants). Its
/// source replaces `_` by `-`, lower-cases the name (Unicode lower-casing)
/// and matches a fixed table; for ASCII names the contract states that
/// table, for others it names the result.
#[verifier::external_body]
fn parse_algorithm(name: &str) -> (r: Result<u8, String>)
    ensures
        match r {
            Ok(i) => algorithm_parse_result(name@) == Some(i) && i < 22,
            Err(e) => algorithm_parse_result(name@) is None && e@ == unknown_algorithm_text(
                name@,
            ),
        },
        all_ascii(name@) ==> match r {
            Ok(i) => algorithm_for(normalized(name@)) matches Some(a) && position(a) == i,
            Err(_) => algorithm_for(normalized(name@)) is None,
        },
{
    match name.parse::<checksums::Algorithm>() {
        Ok(a) => Ok(a as u8),
        Err(e) => Err(e),
    }
}

/// The hashing algorithm that `name` selects, or the checksums crate's
/// error text for a name it does not know.
pub fn algorithm_named(name: &str) -> (r: Result<HashAlgorithm, String>)
    ensures
        match r {
            Ok(a) => algorithm_parse_result(name@) == Some(position(a)),
            Err(e) => algorithm_parse_result(name@) is None && e@ == unknown_algorithm_text(
                name@,
            ),
        },
        all_ascii(name@) ==> match r {
            Ok(a) => algorithm_for(normalized(name@)) == Some(a),
            Err(_) => algorithm_for(normalized(name@)) is None,
        },
{
    match parse_algorithm(name) {
        Ok(i) => {
            let a = HashAlgorithm::from_position(i);
            proof {
                if all_ascii(name@) {
                    lemma_position_injective(a, algorithm_for(normalized(name@))->0);
                }
            }
            Ok(a)
        },
        Err(e) => Err(e),
    }
}

/// Different algorithms have different positions.
pub proof fn lemma_position_injective(a: HashAlgorithm, b: HashAlgorithm)
    ensures
        position(a) == position(b) ==> a == b,
{
}

/// A digest as the result shows it: ASCII upper-case letters made
/// lower-case (the digests of the checksums crate are upper-case hex, on
/// which this is `str::to_lowercase`).
pub open spec fn digest_text(digest: Seq<char>) -> Seq<char> {
    digest.map_values(|c: char| if 'A' <= c <= 'Z' { ((c as u32) + 32) as char } else { c })
}

/// The text of a digest in the result.
pub fn checksum_text(digest: &str) -> (s: String)
    ensures
        s@ == digest_text(digest@),
{
    let chars = chars_of(digest);
    let mut out: Vec<char> = Vec::new();
    let mut i: usize = 0;
    while i < chars.len()
        invariant
            0 <= i <= chars.len(),
            out@ == digest_text(chars@.take(i as int)),
        decreases chars.len() - i,
    {
        let c = chars[i];
        let l = if 'A' <= c && c <= 'Z' {
            let u = (c as u32) + 32;
            char_of_ascii(u)
        } else {
            c
        };
        out.push(l);
        i = i + 1;
        assert(digest_text(chars@.take(i as int)) =~= digest_text(chars@.take(i - 1)).push(l));
    }
    assert(chars@.take(chars.len() as int) =~= chars@);
    string_from_chars(&out)
}

/// The character with an ASCII code.
fn char_of_ascii(u: u32) -> (c: char)
    requires
        u < 128,
    ensures
        c == u as char,
{
    (u as u8) as char
}

/// The checksum text has one character per digest character: an ASCII
/// upper-case letter becomes the letter 32 code points on (its lower case),
/// anything else stays as it is; no upper-case ASCII letter remains.
pub proof fn lemma_digest_text_chars(d: Seq<char>)
    ensures
        digest_text(d).len() == d.len(),
        forall|i: int|
            0 <= i < d.len() && 'A' <= d[i] <= 'Z' ==> (#[trigger] digest_text(d)[i]) as u32 == (
            d[i] as u32) + 32,
        forall|i: int|
            0 <= i < d.len() && !('A' <= d[i] <= 'Z') ==> #[trigger] digest_text(d)[i] == d[i],
        forall|i: int| 0 <= i < d.len() ==> !('A' <= #[trigger] digest_text(d)[i] <= 'Z'),
{
    assert forall|i: int| 0 <= i < d.len() && 'A' <= d[i] <= 'Z' implies (
    #[trigger] digest_text(d)[i]) as u32 == (d[i] as u32) + 32 by {
        let u = (d[i] as u32) + 32;
        assert(u < 128);
        assert((u as char) as u32 == u);
    }
    assert forall|i: int| 0 <= i < d.len() implies !('A' <= #[trigger] digest_text(d)[i] <= 'Z') by {
        if 'A' <= d[i] <= 'Z' {
            let u = (d[i] as u32) + 32;
            assert((u as char) as u32 == u);
        }
    }
}

} // verus!
