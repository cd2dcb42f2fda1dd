//! Deduplication keys: a lowercase hex SHA-256 digest of the task type and
//! the payload (or explicit key).

use vstd::prelude::*;
use vstd::string::*;
use crate::text::push_char;
use sha2::Digest;

verus! {

/// The SHA-256 digest of `data` (32 bytes).
pub uninterp spec fn sha256_digest(data: Seq<u8>) -> Seq<u8>;

/// Calls `sha2::Sha256::digest` on `data`. Claimed: the digest is 32 bytes
/// and equals `sha256_digest` of the input bytes (equal inputs give equal
/// digests); nothing is said of the digest's bytes themselves.
#[verifier::external_body]
fn sha256(data: &[u8]) -> (r: Vec<u8>)
    ensures
        r@ == sha256_digest(data@),
        r@.len() == 32,
{
    sha2::Sha256::digest(data).to_vec()
}

/// The bytes hashed for a dedup key: the task type's UTF-8 bytes, a colon,
/// then the payload bytes (nothing when there is no payload).
pub open spec fn dedup_input(task_type: Seq<char>, payload: Option<Seq<u8>>) -> Seq<u8> {
    vstd::utf8::encode_utf8(task_type) + seq![58u8] + match payload {
        Some(p) => p,
        None => Seq::empty(),
    }
}

/// Lowercase hex digit of a nibble.
pub open spec fn hex_char(n: int) -> char {
    if n < 10 {
        crate::text::digit_char(n)
    } else if n == 10 {
        'a'
    } else if n == 11 {
        'b'
    } else if n == 12 {
        'c'
    } else if n == 13 {
        'd'
    } else if n == 14 {
        'e'
    } else {
        'f'
    }
}

/// Lowercase hex text of bytes, two digits per byte.
pub open spec fn hex_lower(bytes: Seq<u8>) -> Seq<char>
    decreases bytes.len(),
{
    if bytes.len() == 0 {
        Seq::empty()
    } else {
        hex_lower(bytes.drop_last()).push(hex_char((bytes.last() / 16) as int)).push(
            hex_char((bytes.last() % 16) as int),
        )
    }
}

fn hex_digit(n: u8) -> (c: char)
    requires
        n < 16,
    ensures
        c == hex_char(n as int),
{
    match n {
        0 => '0',
        1 => '1',
        2 => '2',
        3 => '3',
        4 => '4',
        5 => '5',
        6 => '6',
        7 => '7',
        8 => '8',
        9 => '9',
        10 => 'a',
        11 => 'b',
        12 => 'c',
        13 => 'd',
        14 => 'e',
        _ => 'f',
    }
}

/// The hex text has two digits per byte.
pub proof fn lemma_hex_lower_len(bytes: Seq<u8>)
    ensures
        hex_lower(bytes).len() == 2 * bytes.len(),
    decreases bytes.len(),
{
    if bytes.len() > 0 {
        lemma_hex_lower_len(bytes.drop_last());
    }
}

/// Lowercase hex encoding of `bytes`.
pub fn to_hex(bytes: &Vec<u8>) -> (s: String)
    ensures
        s@ == hex_lower(bytes@),
        s@.len() == 2 * bytes@.len(),
{
    let mut s = String::new();
    let mut i: usize = 0;
    while i < bytes.len()
        invariant
            i <= bytes@.len(),
            s@ == hex_lower(bytes@.take(i as int)),
        decreases bytes@.len() - i,
    {
        let b = bytes[i];
        push_char(&mut s, hex_digit(b / 16));
        push_char(&mut s, hex_digit(b % 16));
        proof {
            assert(bytes@.take(i as int + 1).drop_last() =~= bytes@.take(i as int));
        }
        i = i + 1;
    }
    proof {
        assert(bytes@.take(bytes@.len() as int) =~= bytes@);
        lemma_hex_lower_len(bytes@);
    }
    s
}

/// Generate a dedup key by hashing the task type and payload: the lowercase
/// hex SHA-256 of the task type, `":"`, and the payload bytes.
pub fn generate_dedup_key(task_type: &str, payload: Option<&[u8]>) -> (k: String)
    ensures
        k@ == hex_lower(
            sha256_digest(
                dedup_input(
                    task_type@,
                    match payload {
                        Some(p) => Some(p@),
                        None => None,
                    },
                ),
            ),
        ),
        k@.len() == 64,
{
    let mut input: Vec<u8> = Vec::new();
    let tb = task_type.as_bytes();
    let mut i: usize = 0;
    while i < tb.len()
        invariant
            i <= tb@.len(),
            tb@ == task_type.spec_bytes(),
            input@ == tb@.take(i as int),
        decreases tb@.len() - i,
    {
        input.push(tb[i]);
        proof {
            assert(input@ =~= tb@.take(i as int + 1));
        }
        i = i + 1;
    }
    input.push(58u8);
    let ghost head = input@;
    proof {
        assert(tb@.take(tb@.len() as int) =~= tb@);
    }
    match payload {
        Some(p) => {
            let mut j: usize = 0;
            while j < p.len()
                invariant
                    j <= p@.len(),
                    input@ == head + p@.take(j as int),
                decreases p@.len() - j,
            {
                input.push(p[j]);
                proof {
                    assert(input@ =~= head + p@.take(j as int + 1));
                }
                j = j + 1;
            }
            proof {
                assert(p@.take(p@.len() as int) =~= p@);
                assert(input@ =~= dedup_input(task_type@, Some(p@)));
            }
        },
        None => {
            proof {
                assert(input@ =~= dedup_input(task_type@, None));
            }
        },
    }
    let digest = sha256(input.as_slice());
    to_hex(&digest)
}

/// Different task types never share dedup input for the same key or
/// payload: the task type is recovered from the hashed bytes.
pub proof fn lemma_task_type_separates_keys(t1: Seq<char>, t2: Seq<char>, payload: Option<Seq<u8>>)
    requires
        t1 != t2,
    ensures
        dedup_input(t1, payload) != dedup_input(t2, payload),
{
    let b1 = vstd::utf8::encode_utf8(t1);
    let b2 = vstd::utf8::encode_utf8(t2);
    let tail = seq![58u8] + match payload {
        Some(p) => p,
        None => Seq::<u8>::empty(),
    };
    vstd::utf8::encode_utf8_decode_utf8(t1);
    vstd::utf8::encode_utf8_decode_utf8(t2);
    if dedup_input(t1, payload) == dedup_input(t2, payload) {
        assert(dedup_input(t1, payload) =~= b1 + tail);
        assert(dedup_input(t2, payload) =~= b2 + tail);
        assert(b1.len() == b2.len());
        assert(b1 =~= (b1 + tail).subrange(0, b1.len() as int));
        assert(b2 =~= (b2 + tail).subrange(0, b2.len() as int));
        assert(b1 == b2);
    }
}

} // verus!
