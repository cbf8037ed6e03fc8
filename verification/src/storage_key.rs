//! Derivation of the chain storage keys the supervisor reads, and the
//! hex form in which the chain answers.
//!
//! A storage item lives at `0x` followed by the 128-bit digest of its
//! module name and the 128-bit digest of its item name, hex-encoded;
//! the value read back arrives as a `0x`-prefixed hex string.

use vstd::prelude::*;
use vstd::string::{StrSliceExecFns, StringExecFns};

use crate::error::Error;

verus! {

/// Module whose storage announces client releases.
pub const PARACHAIN_MODULE: &'static str = "VaultRegistry";

/// Storage item holding the live release.
pub const CURRENT_RELEASE_STORAGE_ITEM: &'static str = "CurrentClientRelease";

/// Storage item holding the staged release, read but not acted on.
pub const PENDING_RELEASE_STORAGE_ITEM: &'static str = "PendingClientRelease";

/// The 128-bit digest the chain derives storage keys with, of the
/// UTF-8 bytes of the given string.
pub uninterp spec fn twox128_of(s: Seq<char>) -> Seq<u8>;

/// Relies on sp_core_hashing::twox_128: a 16-byte digest of the
/// string's UTF-8 bytes, a function of the string alone.
#[verifier::external_body]
fn twox_128_digest(s: &str) -> (r: Vec<u8>)
    ensures
        r@ == twox128_of(s@),
        r@.len() == 16,
{
    sp_core_hashing::twox_128(s.as_bytes()).to_vec()
}

/// The lowercase hex digit of a value below sixteen.
pub open spec fn hex_digit(d: u8) -> char {
    if d == 0 {
        '0'
    } else if d == 1 {
        '1'
    } else if d == 2 {
        '2'
    } else if d == 3 {
        '3'
    } else if d == 4 {
        '4'
    } else if d == 5 {
        '5'
    } else if d == 6 {
        '6'
    } else if d == 7 {
        '7'
    } else if d == 8 {
        '8'
    } else if d == 9 {
        '9'
    } else if d == 10 {
        'a'
    } else if d == 11 {
        'b'
    } else if d == 12 {
        'c'
    } else if d == 13 {
        'd'
    } else if d == 14 {
        'e'
    } else if d == 15 {
        'f'
    } else {
        '0'
    }
}

/// Lowercase hex of a byte sequence: two digits per byte, high nibble
/// first.
pub open spec fn hex_of(b: Seq<u8>) -> Seq<char> {
    Seq::new(
        b.len() * 2,
        |i: int|
            if i % 2 == 0 {
                hex_digit(b[i / 2] / 16)
            } else {
                hex_digit(b[i / 2] % 16)
            },
    )
}

/// The value of a lowercase hex digit.
pub open spec fn unhex_digit(c: char) -> u8 {
    if c == '0' {
        0
    } else if c == '1' {
        1
    } else if c == '2' {
        2
    } else if c == '3' {
        3
    } else if c == '4' {
        4
    } else if c == '5' {
        5
    } else if c == '6' {
        6
    } else if c == '7' {
        7
    } else if c == '8' {
        8
    } else if c == '9' {
        9
    } else if c == 'a' {
        10
    } else if c == 'b' {
        11
    } else if c == 'c' {
        12
    } else if c == 'd' {
        13
    } else if c == 'e' {
        14
    } else if c == 'f' {
        15
    } else if c == 'A' {
        10
    } else if c == 'B' {
        11
    } else if c == 'C' {
        12
    } else if c == 'D' {
        13
    } else if c == 'E' {
        14
    } else if c == 'F' {
        15
    } else {
        0
    }
}

/// The bytes a hex string denotes, two digits per byte.
pub open spec fn unhex(s: Seq<char>) -> Seq<u8> {
    Seq::new(s.len() / 2, |i: int| (unhex_digit(s[2 * i]) * 16 + unhex_digit(s[2 * i + 1])) as u8)
}

/// Law: reading hex back yields the original bytes.
pub proof fn lemma_unhex_of_hex(b: Seq<u8>)
    ensures
        unhex(hex_of(b)) == b,
{
    let h = hex_of(b);
    assert forall|i: int| 0 <= i < b.len() implies unhex(h)[i] == b[i] by {
        let d = b[i];
        assert(h[2 * i] == hex_digit(d / 16));
        assert(h[2 * i + 1] == hex_digit(d % 16));
        assert(unhex_digit(hex_digit(d / 16)) == d / 16);
        assert(unhex_digit(hex_digit(d % 16)) == d % 16);
    }
    assert(unhex(hex_of(b)) =~= b);
}

/// Relies on hex::encode: two lowercase hex digits per input byte,
/// high nibble first.
#[verifier::external_body]
fn hex_encode(b: &Vec<u8>) -> (r: String)
    ensures
        r@ == hex_of(b@),
{
    hex::encode(b.as_slice())
}

/// The storage key of a chain item: `0x`, then the hex of the module
/// digest followed by the item digest.
pub open spec fn storage_key_spec(module: Seq<char>, item: Seq<char>) -> Seq<char> {
    seq!['0', 'x'] + hex_of(twox128_of(module) + twox128_of(item))
}

/// Computes the hex storage key at which a chain item lives.
///
/// The key is 66 characters: `0x` and 64 lowercase hex digits, whose
/// first 16 bytes read back as the module digest and next 16 as the
/// item digest.
pub fn compute_storage_key(module: String, key: String) -> (r: String)
    ensures
        r@ == storage_key_spec(module@, key@),
        twox128_of(module@).len() == 16,
        twox128_of(key@).len() == 16,
        r@.len() == 66,
        r@[0] == '0' && r@[1] == 'x',
        unhex(r@.subrange(2, r@.len() as int)) == twox128_of(module@) + twox128_of(key@),
{
    let m = twox_128_digest(module.as_str());
    let mut tail = twox_128_digest(key.as_str());
    let mut all = m;
    all.append(&mut tail);
    let hexed = hex_encode(&all);
    let mut r = String::from_str("0x");
    r.append(hexed.as_str());
    proof {
        reveal_strlit("0x");
        assert(r@ =~= storage_key_spec(module@, key@));
        lemma_unhex_of_hex(all@);
        assert(r@.subrange(2, r@.len() as int) =~= hex_of(all@));
    }
    r
}

/// The storage key of the current or of the pending release record.
pub fn release_storage_key(pending: bool) -> (r: String)
    ensures
        !pending ==> r@ == storage_key_spec("VaultRegistry"@, "CurrentClientRelease"@),
        pending ==> r@ == storage_key_spec("VaultRegistry"@, "PendingClientRelease"@),
        r@.len() == 66,
{
    let item = if pending {
        PENDING_RELEASE_STORAGE_ITEM
    } else {
        CURRENT_RELEASE_STORAGE_ITEM
    };
    compute_storage_key(PARACHAIN_MODULE.to_owned(), item.to_owned())
}

/// A hex digit, in either letter case.
pub open spec fn is_hex_char(c: char) -> bool {
    ('0' <= c && c <= '9') || ('a' <= c && c <= 'f') || ('A' <= c && c <= 'F')
}

/// A well-formed chain response: `0x`, then an even number of hex
/// digits.
pub open spec fn hex_response_ok(s: Seq<char>) -> bool {
    &&& s.len() >= 2
    &&& s[0] == '0'
    &&& s[1] == 'x'
    &&& (s.len() - 2) % 2 == 0
    &&& (forall|i: int| 2 <= i < s.len() ==> is_hex_char(#[trigger] s[i]))
}

/// The value of one hex digit, as `unhex_digit` gives it.
fn hex_val(c: char) -> (r: u8)
    ensures
        r == unhex_digit(c),
{
    if c == '0' {
        0
    } else if c == '1' {
        1
    } else if c == '2' {
        2
    } else if c == '3' {
        3
    } else if c == '4' {
        4
    } else if c == '5' {
        5
    } else if c == '6' {
        6
    } else if c == '7' {
        7
    } else if c == '8' {
        8
    } else if c == '9' {
        9
    } else if c == 'a' {
        10
    } else if c == 'b' {
        11
    } else if c == 'c' {
        12
    } else if c == 'd' {
        13
    } else if c == 'e' {
        14
    } else if c == 'f' {
        15
    } else if c == 'A' {
        10
    } else if c == 'B' {
        11
    } else if c == 'C' {
        12
    } else if c == 'D' {
        13
    } else if c == 'E' {
        14
    } else if c == 'F' {
        15
    } else {
        0
    }
}

/// Whether a character is a hex digit, as `is_hex_char` says.
fn is_hex_exec(c: char) -> (r: bool)
    ensures
        r == is_hex_char(c),
{
    let u = c as u32;
    (48 <= u && u <= 57) || (97 <= u && u <= 102) || (65 <= u && u <= 70)
}

/// Decodes the hex string in which the chain returns a storage value:
/// `0x` and an even number of hex digits.  Anything else is a hard
/// `DecodeError`, never an absence.
pub fn decode_hex_response(s: &str) -> (r: Result<Vec<u8>, Error>)
    ensures
        hex_response_ok(s@) ==> (r matches Ok(b) && b@ == unhex(s@.skip(2))),
        !hex_response_ok(s@) ==> r == Err::<Vec<u8>, Error>(Error::DecodeError),
{
    let n = s.unicode_len();
    if n < 2 {
        return Err(Error::DecodeError);
    }
    if !(s.get_char(0) == '0') || !(s.get_char(1) == 'x') {
        return Err(Error::DecodeError);
    }
    if (n - 2) % 2 != 0 {
        return Err(Error::DecodeError);
    }
    let ghost body = s@.skip(2);
    let mut out: Vec<u8> = Vec::new();
    let mut i: usize = 2;
    while i < n
        invariant
            2 <= i <= n,
            n == s@.len(),
            (i - 2) % 2 == 0,
            (n - 2) % 2 == 0,
            body == s@.skip(2),
            out@.len() == (i - 2) / 2,
            forall|j: int| 0 <= j < out@.len() ==> out@[j] == unhex(body)[j],
            forall|k: int| 2 <= k < i ==> is_hex_char(#[trigger] s@[k]),
        decreases n - i,
    {
        proof {
            assert(i + 1 < n);
        }
        let c1 = s.get_char(i);
        let c2 = s.get_char(i + 1);
        if !is_hex_exec(c1) || !is_hex_exec(c2) {
            return Err(Error::DecodeError);
        }
        let hi = hex_val(c1);
        let lo = hex_val(c2);
        let ghost j = (i - 2) / 2 as int;
        out.push(hi * 16 + lo);
        proof {
            assert(body[2 * j] == s@[i as int]);
            assert(body[2 * j + 1] == s@[i as int + 1]);
            assert(out@[j] == unhex(body)[j]);
        }
        i = i + 2;
    }
    proof {
        assert(hex_response_ok(s@));
        assert(out@ =~= unhex(body));
    }
    Ok(out)
}

} // verus!
