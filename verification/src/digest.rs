//! Shard names: a resource name may hold any character and any number of
//! segments, so on disk a resource lives in a directory named by the SHA-256
//! digest of its name, written as 64 upper-case hexadecimal digits. The name
//! of the directory depends on the resource name alone. It says nothing about
//! the resource's content.

use vstd::prelude::*;
use vstd::string::*;
use vstd::utf8::encode_utf8;
use sha2::Digest;
use sha2::Sha256;
use crate::decimal::digit_char;

verus! {

/// The SHA-256 digest of `data`.
pub uninterp spec fn sha256_digest(data: Seq<u8>) -> Seq<u8>;

/// Calls `Sha256::digest` of the `sha2` crate, which feeds `data` to a fresh
/// hasher and finalises it. The contract names the result and states its
/// length, which the crate fixes at 32 bytes.
#[verifier::external_body]
fn sha256(data: &[u8]) -> (digest: Vec<u8>)
    ensures
        digest@ == sha256_digest(data@),
        digest@.len() == 32,
{
    Sha256::digest(data).to_vec()
}

/// The upper-case hexadecimal digit for `n`.
pub open spec fn hex_char(n: nat) -> char {
    if n < 10 {
        digit_char(n)
    } else if n == 10 {
        'A'
    } else if n == 11 {
        'B'
    } else if n == 12 {
        'C'
    } else if n == 13 {
        'D'
    } else if n == 14 {
        'E'
    } else {
        'F'
    }
}

/// Whether `c` is an upper-case hexadecimal digit.
pub open spec fn is_upper_hex(c: char) -> bool {
    ('0' <= c <= '9') || ('A' <= c <= 'F')
}

/// `bytes` in upper-case hexadecimal: two digits for each byte, the high
/// half first.
pub open spec fn hex_upper(bytes: Seq<u8>) -> Seq<char> {
    Seq::new(
        2 * bytes.len(),
        |i: int|
            if i % 2 == 0 {
                hex_char((bytes[i / 2] / 16) as nat)
            } else {
                hex_char((bytes[i / 2] % 16) as nat)
            },
    )
}

/// The name of the directory that holds the resource `path`.
pub open spec fn shard_name(path: Seq<char>) -> Seq<char> {
    hex_upper(sha256_digest(encode_utf8(path)))
}

/// Hexadecimal text has two characters for each byte, all of them
/// upper-case hexadecimal digits.
pub proof fn lemma_hex_upper_shape(bytes: Seq<u8>)
    ensures
        hex_upper(bytes).len() == 2 * bytes.len(),
        forall|i: int| 0 <= i < hex_upper(bytes).len() ==> is_upper_hex(#[trigger] hex_upper(bytes)[i]),
{
}

/// Equal resource names have equal shard names: the name of a shard is a
/// function of the resource name and of nothing else, so every caller, in
/// every process, arrives at the same directory.
pub proof fn lemma_shard_name_deterministic(a: Seq<char>, b: Seq<char>)
    requires
        a == b,
    ensures
        shard_name(a) == shard_name(b),
{
}

/// The text of the hexadecimal digit `n`.
fn hex_text(n: u8) -> (r: &'static str)
    requires
        n < 16,
    ensures
        r@ == seq![hex_char(n as nat)],
{
    proof {
        reveal_strlit("0");
        reveal_strlit("1");
        reveal_strlit("2");
        reveal_strlit("3");
        reveal_strlit("4");
        reveal_strlit("5");
        reveal_strlit("6");
        reveal_strlit("7");
        reveal_strlit("8");
        reveal_strlit("9");
        reveal_strlit("A");
        reveal_strlit("B");
        reveal_strlit("C");
        reveal_strlit("D");
        reveal_strlit("E");
        reveal_strlit("F");
    }
    let r = if n == 0 {
        "0"
    } else if n == 1 {
        "1"
    } else if n == 2 {
        "2"
    } else if n == 3 {
        "3"
    } else if n == 4 {
        "4"
    } else if n == 5 {
        "5"
    } else if n == 6 {
        "6"
    } else if n == 7 {
        "7"
    } else if n == 8 {
        "8"
    } else if n == 9 {
        "9"
    } else if n == 10 {
        "A"
    } else if n == 11 {
        "B"
    } else if n == 12 {
        "C"
    } else if n == 13 {
        "D"
    } else if n == 14 {
        "E"
    } else {
        "F"
    };
    assert(r@ =~= seq![hex_char(n as nat)]);
    r
}

/// Writes `bytes` in upper-case hexadecimal.
pub fn to_hex_upper(bytes: &Vec<u8>) -> (text: String)
    ensures
        text@ == hex_upper(bytes@),
{
    let mut text = String::new();
    let mut i: usize = 0;
    while i < bytes.len()
        invariant
            0 <= i <= bytes.len(),
            text@ == hex_upper(bytes@.take(i as int)),
        decreases bytes.len() - i,
    {
        let b: u8 = bytes[i];
        let ghost before = text@;
        text.append(hex_text(b / 16));
        text.append(hex_text(b % 16));
        assert(text@ =~= hex_upper(bytes@.take(i + 1))) by {
            let grown = hex_upper(bytes@.take(i + 1));
            assert(text@ == before + seq![hex_char((b / 16) as nat)] + seq![
                hex_char((b % 16) as nat),
            ]);
            assert forall|j: int| 0 <= j < grown.len() implies text@[j] == grown[j] by {
                if j < 2 * i {
                    assert(bytes@.take(i + 1)[j / 2] == bytes@.take(i as int)[j / 2]);
                }
            }
        }
        i = i + 1;
    }
    assert(bytes@.take(i as int) =~= bytes@);
    text
}

/// The name of the directory that holds the resource `path`: the SHA-256
/// digest of the name's UTF-8 bytes in upper-case hexadecimal, 64 characters
/// whatever the length of `path`.
pub fn hash_path(path: &str) -> (name: String)
    ensures
        name@ == shard_name(path@),
        name@.len() == 64,
        forall|i: int| 0 <= i < 64 ==> is_upper_hex(#[trigger] name@[i]),
{
    let digest = sha256(path.as_bytes());
    proof {
        lemma_hex_upper_shape(digest@);
    }
    to_hex_upper(&digest)
}

} // verus!
