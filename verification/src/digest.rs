//! SHA-256 digests, through the `sha2` crate, and their lowercase hex rendering.

use vstd::prelude::*;
use sha2::{Digest, Sha256};

verus! {

/// The SHA-256 digest of `bytes`.
pub uninterp spec fn sha256_of(bytes: Seq<u8>) -> Seq<u8>;

/// `sha2::Sha256::digest`: claims the 32 bytes returned are what `sha256_of` names for
/// the input.
#[verifier::external_body]
pub(crate) fn sha256(bytes: &[u8]) -> (d: [u8; 32])
    ensures
        d@ == sha256_of(bytes@),
{
    Sha256::digest(bytes).into()
}

/// The lowercase hex digit of a nibble `v` (`0 <= v < 16`).
pub open spec fn hex_digit(v: nat) -> char {
    if v < 10 {
        (48 + v) as char
    } else {
        (87 + v) as char
    }
}

/// Two lowercase hex digits per byte, most significant nibble first.
pub open spec fn hex_lower(bytes: Seq<u8>) -> Seq<char>
    decreases bytes.len(),
{
    if bytes.len() == 0 {
        Seq::empty()
    } else {
        hex_lower(bytes.drop_last()) + seq![
            hex_digit((bytes.last() / 16) as nat),
            hex_digit((bytes.last() % 16) as nat),
        ]
    }
}

fn hex_str(v: u8) -> (s: &'static str)
    requires
        v < 16,
    ensures
        s@ == seq![hex_digit(v as nat)],
{
    proof {
        reveal_strlit("0");
        reveal_strlit("1");
        reveal_strlit("2");
        reveal_strlit("3");
        reveal_strlit("4");
        reveal_strlit("5");
        reveal_strlit("6");
        reveal_strlit("7");
        reveal_strlit("8");
        reveal_strlit("9");
        reveal_strlit("a");
        reveal_strlit("b");
        reveal_strlit("c");
        reveal_strlit("d");
        reveal_strlit("e");
        reveal_strlit("f");
    }
    if v < 8 {
        if v == 0 {
            "0"
        } else if v == 1 {
            "1"
        } else if v == 2 {
            "2"
        } else if v == 3 {
            "3"
        } else if v == 4 {
            "4"
        } else if v == 5 {
            "5"
        } else if v == 6 {
            "6"
        } else {
            "7"
        }
    } else {
        if v == 8 {
            "8"
        } else if v == 9 {
            "9"
        } else if v == 10 {
            "a"
        } else if v == 11 {
            "b"
        } else if v == 12 {
            "c"
        } else if v == 13 {
            "d"
        } else if v == 14 {
            "e"
        } else {
            "f"
        }
    }
}

/// Lowercase hex rendering of `bytes`: two digits per byte.
pub fn to_hex(bytes: &[u8]) -> (s: String)
    ensures
        s@ == hex_lower(bytes@),
        s@.len() == 2 * bytes@.len(),
{
    let mut s = String::new();
    let mut i: usize = 0;
    while i < bytes.len()
        invariant
            i <= bytes@.len(),
            s@ == hex_lower(bytes@.take(i as int)),
        decreases bytes@.len() - i,
    {
        let b = bytes[i];
        s.append(hex_str(b / 16));
        s.append(hex_str(b % 16));
        proof {
            assert(bytes@.take(i + 1).drop_last() =~= bytes@.take(i as int));
            assert(bytes@.take(i + 1).last() == b);
        }
        i += 1;
    }
    assert(bytes@.take(i as int) =~= bytes@);
    proof {
        lemma_hex_len(bytes@);
    }
    s
}

proof fn lemma_hex_len(bytes: Seq<u8>)
    ensures
        hex_lower(bytes).len() == 2 * bytes.len(),
    decreases bytes.len(),
{
    if bytes.len() > 0 {
        lemma_hex_len(bytes.drop_last());
    }
}

/// Lowercase hex SHA-256 of `bytes` (64 characters).
pub fn sha256_hex(bytes: &[u8]) -> (s: String)
    ensures
        s@ == hex_lower(sha256_of(bytes@)),
        s@.len() == 64,
{
    let d = sha256(bytes);
    to_hex(&d)
}

} // verus!
