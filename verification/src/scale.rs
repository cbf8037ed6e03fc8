//! Decoding and encoding of release records in the chain's compact
//! binary format.
//!
//! A release record travels as a length-prefixed UTF-8 string followed
//! by the fixed-width code hash.  The length prefix is the compact
//! integer form: the low two bits of the first byte select one of four
//! widths, and each width carries its own value range, so every value
//! has exactly one encoding.

use vstd::prelude::*;
use vstd::arithmetic::div_mod::lemma_div_denominator;
use vstd::utf8::valid_utf8;

use crate::error::Error;
use crate::release::{ClientRelease, CODE_HASH_LEN};

verus! {

/// The unique compact encoding of a 32-bit value.
pub open spec fn compact_u32_enc(n: u32) -> Seq<u8> {
    if n <= 63 {
        seq![(n * 4) as u8]
    } else if n <= 16383 {
        seq![((n * 4 + 1) % 256) as u8, ((n * 4 + 1) / 256) as u8]
    } else if n <= 0x3FFF_FFFF {
        seq![
            ((n * 4 + 2) % 256) as u8,
            (((n * 4 + 2) / 256) % 256) as u8,
            (((n * 4 + 2) / 65536) % 256) as u8,
            (((n * 4 + 2) / 16777216) % 256) as u8,
        ]
    } else {
        seq![
            3u8,
            (n % 256) as u8,
            ((n / 256) % 256) as u8,
            ((n / 65536) % 256) as u8,
            ((n / 16777216) % 256) as u8,
        ]
    }
}

/// Reads a compact 32-bit value from the front of `s`: the value and
/// how many bytes its encoding used, or nothing when the bytes are
/// short, out of the width's range, or of a width beyond 32 bits.
pub open spec fn compact_u32_dec(s: Seq<u8>) -> Option<(u32, int)> {
    if s.len() < 1 {
        None
    } else {
        let p = s[0] as int;
        if p % 4 == 0 {
            Some(((p / 4) as u32, 1))
        } else if p % 4 == 1 {
            if s.len() < 2 {
                None
            } else {
                let x = (p + s[1] as int * 256) / 4;
                if 64 <= x <= 16383 {
                    Some((x as u32, 2))
                } else {
                    None
                }
            }
        } else if p % 4 == 2 {
            if s.len() < 4 {
                None
            } else {
                let x = (p + s[1] as int * 256 + s[2] as int * 65536 + s[3] as int * 16777216) / 4;
                if 16384 <= x <= 0x3FFF_FFFF {
                    Some((x as u32, 4))
                } else {
                    None
                }
            }
        } else {
            if p != 3 {
                None
            } else if s.len() < 5 {
                None
            } else {
                let x = s[1] as int + s[2] as int * 256 + s[3] as int * 65536 + s[4] as int
                    * 16777216;
                if x > 0x3FFF_FFFF {
                    Some((x as u32, 5))
                } else {
                    None
                }
            }
        }
    }
}

/// The encoded form of a release record: the compact length of the URI,
/// the URI bytes, then the code hash bytes.
pub open spec fn release_enc(r: ClientRelease) -> Seq<u8> {
    compact_u32_enc(r.uri@.len() as u32) + r.uri@ + r.code_hash@
}

/// Reads a release record from `s`: the URI bytes and the code hash
/// bytes.  The URI must be valid UTF-8; bytes after the record are
/// ignored, as the chain reader ignores them.
pub open spec fn release_dec(s: Seq<u8>) -> Option<(Seq<u8>, Seq<u8>)> {
    match compact_u32_dec(s) {
        None => None,
        Some((n, k)) => {
            let nn = n as int;
            if s.len() < k + nn + CODE_HASH_LEN {
                None
            } else {
                let uri = s.subrange(k, k + nn);
                if !valid_utf8(uri) {
                    None
                } else {
                    Some((uri, s.subrange(k + nn, k + nn + CODE_HASH_LEN)))
                }
            }
        },
    }
}

/// Relies on core::str::from_utf8: it accepts a byte slice exactly when
/// the bytes are valid UTF-8.
#[verifier::external_body]
fn bytes_are_utf8(v: &Vec<u8>) -> (r: bool)
    ensures
        r == valid_utf8(v@),
{
    core::str::from_utf8(v.as_slice()).is_ok()
}

/// Reads a compact 32-bit value from the front of `bytes`, as
/// `compact_u32_dec` describes.
pub fn decode_compact_u32(bytes: &Vec<u8>) -> (r: Result<(u32, usize), Error>)
    ensures
        compact_u32_dec(bytes@) matches Some(v) ==> (r matches Ok(x) && x.0 == v.0 && x.1 as int
            == v.1),
        compact_u32_dec(bytes@) is None ==> r == Err::<(u32, usize), Error>(Error::DecodeError),
{
    if bytes.len() < 1 {
        return Err(Error::DecodeError);
    }
    let p = bytes[0];
    let m = p % 4;
    if m == 0 {
        Ok(((p / 4) as u32, 1))
    } else if m == 1 {
        if bytes.len() < 2 {
            return Err(Error::DecodeError);
        }
        let x: u32 = (p as u32 + bytes[1] as u32 * 256) / 4;
        if 64 <= x && x <= 16383 {
            Ok((x, 2))
        } else {
            Err(Error::DecodeError)
        }
    } else if m == 2 {
        if bytes.len() < 4 {
            return Err(Error::DecodeError);
        }
        let x: u32 = (p as u32 + bytes[1] as u32 * 256 + bytes[2] as u32 * 65536 + bytes[3] as u32
            * 16777216) / 4;
        if 16384 <= x && x <= 0x3FFF_FFFF {
            Ok((x, 4))
        } else {
            Err(Error::DecodeError)
        }
    } else {
        if p != 3 {
            return Err(Error::DecodeError);
        }
        if bytes.len() < 5 {
            return Err(Error::DecodeError);
        }
        let x: u32 = bytes[1] as u32 + bytes[2] as u32 * 256 + bytes[3] as u32 * 65536 + bytes[4]
            as u32 * 16777216;
        if x > 0x3FFF_FFFF {
            Ok((x, 5))
        } else {
            Err(Error::DecodeError)
        }
    }
}

/// Decodes a release record, as `release_dec` describes; any failure is
/// a `DecodeError`.
pub fn decode_client_release(bytes: &Vec<u8>) -> (r: Result<ClientRelease, Error>)
    ensures
        release_dec(bytes@) matches Some(v) ==> (r matches Ok(c) && c.uri@ == v.0 && c.code_hash@
            == v.1 && c.wf()),
        release_dec(bytes@) is None ==> r == Err::<ClientRelease, Error>(Error::DecodeError),
{
    let (n, k) = match decode_compact_u32(bytes) {
        Err(e) => {
            return Err(e);
        },
        Ok(x) => x,
    };
    let n_us = n as usize;
    proof {
        assert(k as int <= bytes@.len());
    }
    let blen = bytes.len();
    let rem = blen - k;
    if n_us > rem || rem - n_us < CODE_HASH_LEN {
        return Err(Error::DecodeError);
    }
    let mut uri: Vec<u8> = Vec::new();
    let mut i: usize = 0;
    while i < n_us
        invariant
            i <= n_us,
            blen == bytes@.len(),
            k + n_us + CODE_HASH_LEN <= blen,
            uri@ == bytes@.subrange(k as int, k as int + i as int),
        decreases n_us - i,
    {
        uri.push(bytes[k + i]);
        proof {
            assert(uri@ =~= bytes@.subrange(k as int, k as int + i as int + 1));
        }
        i = i + 1;
    }
    if !bytes_are_utf8(&uri) {
        return Err(Error::DecodeError);
    }
    let base = k + n_us;
    let mut code_hash: Vec<u8> = Vec::new();
    let mut j: usize = 0;
    while j < CODE_HASH_LEN
        invariant
            j <= CODE_HASH_LEN,
            base == k + n_us,
            blen == bytes@.len(),
            base + CODE_HASH_LEN <= blen,
            code_hash@ == bytes@.subrange(base as int, base as int + j as int),
        decreases CODE_HASH_LEN - j,
    {
        code_hash.push(bytes[base + j]);
        proof {
            assert(code_hash@ =~= bytes@.subrange(base as int, base as int + j as int + 1));
        }
        j = j + 1;
    }
    Ok(ClientRelease { uri, code_hash })
}

/// Encodes a release record, as `release_enc` describes.
pub fn encode_client_release(release: &ClientRelease) -> (out: Vec<u8>)
    requires
        release.uri@.len() <= 0xFFFF_FFFF,
    ensures
        out@ == release_enc(*release),
{
    let n: u32 = release.uri.len() as u32;
    let mut out = encode_compact_u32(n);
    let ghost pre = out@;
    let mut i: usize = 0;
    while i < release.uri.len()
        invariant
            i <= release.uri@.len(),
            out@ == pre + release.uri@.subrange(0, i as int),
        decreases release.uri.len() - i,
    {
        out.push(release.uri[i]);
        proof {
            assert(out@ =~= pre + release.uri@.subrange(0, i as int + 1));
        }
        i = i + 1;
    }
    let ghost mid = out@;
    let mut j: usize = 0;
    while j < release.code_hash.len()
        invariant
            j <= release.code_hash@.len(),
            out@ == mid + release.code_hash@.subrange(0, j as int),
        decreases release.code_hash.len() - j,
    {
        out.push(release.code_hash[j]);
        proof {
            assert(out@ =~= mid + release.code_hash@.subrange(0, j as int + 1));
        }
        j = j + 1;
    }
    proof {
        assert(release.uri@.subrange(0, release.uri@.len() as int) =~= release.uri@);
        assert(release.code_hash@.subrange(0, release.code_hash@.len() as int)
            =~= release.code_hash@);
        assert(out@ =~= release_enc(*release));
    }
    out
}

/// The unique compact encoding of `n`, as `compact_u32_enc` describes.
pub fn encode_compact_u32(n: u32) -> (out: Vec<u8>)
    ensures
        out@ == compact_u32_enc(n),
{
    let mut out: Vec<u8> = Vec::new();
    if n <= 63 {
        out.push((n * 4) as u8);
        proof {
            assert(out@ =~= compact_u32_enc(n));
        }
    } else if n <= 16383 {
        let v: u32 = n * 4 + 1;
        out.push((v % 256) as u8);
        out.push((v / 256) as u8);
        proof {
            assert(out@ =~= compact_u32_enc(n));
        }
    } else if n <= 0x3FFF_FFFF {
        let v: u32 = n * 4 + 2;
        out.push((v % 256) as u8);
        out.push(((v / 256) % 256) as u8);
        out.push(((v / 65536) % 256) as u8);
        out.push(((v / 16777216) % 256) as u8);
        proof {
            assert(out@ =~= compact_u32_enc(n));
        }
    } else {
        out.push(3);
        out.push((n % 256) as u8);
        out.push(((n / 256) % 256) as u8);
        out.push(((n / 65536) % 256) as u8);
        out.push(((n / 16777216) % 256) as u8);
        proof {
            assert(out@ =~= compact_u32_enc(n));
        }
    }
    out
}

/// Interprets the raw value a chain read produced: no bytes means no
/// release is announced; bytes must decode as a release record.
pub fn read_chain_storage(response: Option<Vec<u8>>) -> (r: Result<Option<ClientRelease>, Error>)
    ensures
        response is None ==> r == Ok::<Option<ClientRelease>, Error>(None),
        response matches Some(b) ==> (match release_dec(b@) {
            Some(v) => r matches Ok(o) && o matches Some(c) && c.uri@ == v.0 && c.code_hash@ == v.1
                && c.wf(),
            None => r == Err::<Option<ClientRelease>, Error>(Error::DecodeError),
        }),
{
    match response {
        None => Ok(None),
        Some(b) => match decode_client_release(&b) {
            Ok(c) => Ok(Some(c)),
            Err(e) => Err(e),
        },
    }
}

/// Law: decoding inverts encoding.  The compact form of any value,
/// followed by anything, reads back as exactly that value.
pub proof fn lemma_compact_round_trip(n: u32, rest: Seq<u8>)
    ensures
        compact_u32_dec(compact_u32_enc(n) + rest) == Some(
            (n, compact_u32_enc(n).len() as int),
        ),
{
    let s = compact_u32_enc(n) + rest;
    if n <= 63 {
        assert(s[0] as int == n * 4);
        assert(s[0] as int % 4 == 0);
        assert(s[0] as int / 4 == n as int);
    } else if n <= 16383 {
        let v = n * 4 + 1int;
        let q = v / 256;
        assert(v == 256 * q + v % 256);
        assert(s[0] as int == v % 256);
        assert(s[1] as int == q);
        assert(v % 256 == 4 * (n - 64 * q) + 1);
        assert(s[0] as int % 4 == 1);
        assert(s[0] as int + s[1] as int * 256 == v);
        assert(v / 4 == n as int);
    } else if n <= 0x3FFF_FFFF {
        let v = n * 4 + 2int;
        let a1 = v / 256;
        let a2 = a1 / 256;
        let a3 = a2 / 256;
        lemma_div_denominator(v, 256, 256);
        lemma_div_denominator(v, 65536, 256);
        assert(a2 == v / 65536);
        assert(a3 == v / 16777216);
        assert(v == 256 * a1 + v % 256);
        assert(a1 == 256 * a2 + a1 % 256);
        assert(a2 == 256 * a3 + a2 % 256);
        assert(v < 0x1_0000_0000);
        assert(a3 < 256);
        assert(s[0] as int == v % 256);
        assert(s[1] as int == a1 % 256);
        assert(s[2] as int == a2 % 256);
        assert(s[3] as int == a3);
        assert(v % 256 == 4 * (n - 64 * a1) + 2);
        assert(s[0] as int % 4 == 2);
        assert(s[0] as int + s[1] as int * 256 + s[2] as int * 65536 + s[3] as int * 16777216 == v);
        assert(v / 4 == n as int);
    } else {
        let v = n as int;
        let a1 = v / 256;
        let a2 = a1 / 256;
        let a3 = a2 / 256;
        lemma_div_denominator(v, 256, 256);
        lemma_div_denominator(v, 65536, 256);
        assert(a2 == v / 65536);
        assert(a3 == v / 16777216);
        assert(v == 256 * a1 + v % 256);
        assert(a1 == 256 * a2 + a1 % 256);
        assert(a2 == 256 * a3 + a2 % 256);
        assert(a3 < 256);
        assert(s[0] as int == 3);
        assert(s[1] as int == v % 256);
        assert(s[2] as int == a1 % 256);
        assert(s[3] as int == a2 % 256);
        assert(s[4] as int == a3);
        assert(s[1] as int + s[2] as int * 256 + s[3] as int * 65536 + s[4] as int * 16777216 == v);
    }
}

/// Law: a well-formed release record with a UTF-8 URI decodes back from
/// its own encoding, field for field.
pub proof fn lemma_release_round_trip(r: ClientRelease)
    requires
        r.wf(),
        r.uri@.len() <= 0xFFFF_FFFF,
        valid_utf8(r.uri@),
    ensures
        release_dec(release_enc(r)) matches Some(v) && v.0 == r.uri@ && v.1 == r.code_hash@,
{
    let n = r.uri@.len() as u32;
    let rest = r.uri@ + r.code_hash@;
    let s = release_enc(r);
    assert(s =~= compact_u32_enc(n) + rest);
    lemma_compact_round_trip(n, rest);
    let k = compact_u32_enc(n).len() as int;
    assert(compact_u32_dec(s) == Some((n, k)));
    assert(s.len() == k + r.uri@.len() + r.code_hash@.len());
    assert(s.subrange(k, k + r.uri@.len() as int) =~= r.uri@);
    assert(s.subrange(
        k + r.uri@.len() as int,
        k + r.uri@.len() as int + CODE_HASH_LEN,
    ) =~= r.code_hash@);
}

} // verus!
