//! Deriving the binary name from a release URI.
//!
//! The supervisor installs a binary under the final non-empty path segment
//! of the release URL, after trailing slashes are trimmed.  A URI without a
//! recognisable `scheme://authority` shape is rejected as unparseable; a
//! parseable URL whose path has no usable final segment is rejected as
//! yielding no name.

use vstd::prelude::*;

use crate::error::Error;

verus! {

/// Byte value of `/`.
pub const SLASH: u8 = 47;

/// Outcome of deriving a binary name from the bytes of a URI.
pub ghost enum NameOutcome {
    /// The URI is not a well-formed absolute URL.
    BadUrl,
    /// The URL parses but has no usable final path segment.
    NoSegment,
    /// The final non-empty path segment.
    Name(Seq<u8>),
}

/// Length of `s.take(i)` once trailing slashes are removed.
pub open spec fn trimmed_len(s: Seq<u8>, i: int) -> int
    decreases i,
{
    if i <= 0 {
        0
    } else if s[i - 1] == 47 {
        trimmed_len(s, i - 1)
    } else {
        i
    }
}

/// Index of the first `"://"` in `s` within `[i, e)`, if any.
pub open spec fn find_sep(s: Seq<u8>, i: int, e: int) -> Option<int>
    decreases e - i,
{
    if i < 0 || i + 3 > e {
        None
    } else if s[i] == 58 && s[i + 1] == 47 && s[i + 2] == 47 {
        Some(i)
    } else {
        find_sep(s, i + 1, e)
    }
}

/// Index of the first occurrence of `b` in `s` within `[i, e)`, if any.
pub open spec fn find_byte(s: Seq<u8>, b: u8, i: int, e: int) -> Option<int>
    decreases e - i,
{
    if i < 0 || i >= e {
        None
    } else if s[i] == b {
        Some(i)
    } else {
        find_byte(s, b, i + 1, e)
    }
}

/// Index of the first `?` or `#` in `s` within `[i, e)`, or `e` if none:
/// where the path of a URL ends and its query or fragment begins.
pub open spec fn find_stop(s: Seq<u8>, i: int, e: int) -> int
    decreases e - i,
{
    if i < 0 || i >= e {
        e
    } else if s[i] == 63 || s[i] == 35 {
        i
    } else {
        find_stop(s, i + 1, e)
    }
}

/// Index of the last occurrence of `b` in `s` within `[lo, i)`, if any.
pub open spec fn rfind_byte(s: Seq<u8>, b: u8, lo: int, i: int) -> Option<int>
    decreases i - lo,
{
    if i <= lo {
        None
    } else if s[i - 1] == b {
        Some(i - 1)
    } else {
        rfind_byte(s, b, lo, i - 1)
    }
}

/// A byte a URL scheme may contain: a letter anywhere, and a digit,
/// `+`, `-` or `.` after the first position.
pub open spec fn scheme_char_ok(c: u8, first: bool) -> bool {
    (65 <= c <= 90) || (97 <= c <= 122) || (!first && ((48 <= c <= 57) || c == 43 || c == 45 || c
        == 46))
}

/// All bytes of `s` within `[i, e)` are acceptable scheme bytes.
pub open spec fn scheme_ok_from(s: Seq<u8>, i: int, e: int) -> bool
    decreases e - i,
{
    if i < 0 || i >= e {
        true
    } else {
        scheme_char_ok(s[i], i == 0) && scheme_ok_from(s, i + 1, e)
    }
}

/// The binary name announced by a URI: trailing slashes are trimmed, the
/// URI must read `scheme://authority[/path][?query][#fragment]`, and the
/// name is the final non-empty segment of the path.
pub open spec fn derive_name_spec(s: Seq<u8>) -> NameOutcome {
    let e = trimmed_len(s, s.len() as int);
    match find_sep(s, 0, e) {
        None => NameOutcome::BadUrl,
        Some(sep) => if sep == 0 || !scheme_ok_from(s, 0, sep) {
            NameOutcome::BadUrl
        } else {
            let stop = find_stop(s, sep + 3, e);
            match find_byte(s, 47, sep + 3, stop) {
                None => if stop == sep + 3 {
                    NameOutcome::BadUrl
                } else {
                    NameOutcome::NoSegment
                },
                Some(fs) => if fs == sep + 3 {
                    NameOutcome::BadUrl
                } else {
                    match rfind_byte(s, 47, fs, stop) {
                        None => NameOutcome::BadUrl,
                        Some(ls) => if ls + 1 == stop {
                            NameOutcome::NoSegment
                        } else {
                            NameOutcome::Name(s.subrange(ls + 1, stop))
                        },
                    }
                },
            }
        },
    }
}

/// Derives the binary name from the bytes of a release URI.
///
/// Returns the final non-empty path segment after trailing slashes are
/// trimmed; `UrlParseError` when the URI is not a well-formed absolute
/// URL, and `NameDerivationError` when the URL has no usable segment.
pub fn derive_bin_name(uri: &Vec<u8>) -> (r: Result<Vec<u8>, Error>)
    ensures
        derive_name_spec(uri@) is Name ==> (r matches Ok(nm) && nm@ == derive_name_spec(
            uri@,
        )->Name_0 && nm@.len() > 0),
        derive_name_spec(uri@) is BadUrl ==> r == Err::<Vec<u8>, Error>(Error::UrlParseError),
        derive_name_spec(uri@) is NoSegment ==> r == Err::<Vec<u8>, Error>(
            Error::NameDerivationError,
        ),
{
    let n = uri.len();
    // Trim trailing slashes.
    let mut e: usize = n;
    while e > 0 && uri[e - 1] == SLASH
        invariant
            e <= n,
            n == uri@.len(),
            trimmed_len(uri@, n as int) == trimmed_len(uri@, e as int),
        decreases e,
    {
        e = e - 1;
    }
    proof {
        assert(trimmed_len(uri@, e as int) == e as int);
    }
    // Find the first "://".
    let mut j: usize = 0;
    let mut sep: usize = 0;
    let mut sep_found: bool = false;
    while e >= 3 && j <= e - 3
        invariant
            j <= e,
            e <= n,
            n == uri@.len(),
            trimmed_len(uri@, n as int) == e as int,
            !sep_found ==> find_sep(uri@, 0, e as int) == find_sep(uri@, j as int, e as int),
            sep_found ==> find_sep(uri@, 0, e as int) == Some(sep as int) && sep + 3 <= e && j == e,
        decreases e - j,
    {
        if uri[j] == 58 && uri[j + 1] == SLASH && uri[j + 2] == SLASH {
            sep = j;
            sep_found = true;
            proof {
                assert(find_sep(uri@, j as int, e as int) == Some(j as int));
            }
            j = e;
        } else {
            proof {
                assert(find_sep(uri@, j as int, e as int) == find_sep(uri@, j as int + 1, e as int));
            }
            j = j + 1;
        }
    }
    if !sep_found {
        proof {
            assert(find_sep(uri@, 0, e as int) is None);
            assert(derive_name_spec(uri@) is BadUrl);
        }
        return Err(Error::UrlParseError);
    }
    if sep == 0 {
        return Err(Error::UrlParseError);
    }
    // Check the scheme bytes.
    let mut i: usize = 0;
    let mut scheme_fine: bool = true;
    while i < sep
        invariant
            i <= sep,
            sep + 3 <= e,
            e <= n,
            n == uri@.len(),
            scheme_fine ==> scheme_ok_from(uri@, 0, sep as int) == scheme_ok_from(
                uri@,
                i as int,
                sep as int,
            ),
            !scheme_fine ==> !scheme_ok_from(uri@, 0, sep as int),
        decreases sep - i,
    {
        let c = uri[i];
        let this_ok = (65 <= c && c <= 90) || (97 <= c && c <= 122) || (i != 0 && ((48 <= c && c
            <= 57) || c == 43 || c == 45 || c == 46));
        if !this_ok {
            proof {
                assert(!scheme_char_ok(uri@[i as int], i == 0));
                assert(!scheme_ok_from(uri@, i as int, sep as int));
            }
            scheme_fine = false;
            i = sep;
        } else {
            proof {
                assert(scheme_ok_from(uri@, i as int, sep as int) == scheme_ok_from(
                    uri@,
                    i as int + 1,
                    sep as int,
                ));
            }
            i = i + 1;
        }
    }
    if !scheme_fine {
        return Err(Error::UrlParseError);
    }
    // Find where the path ends: the first '?' or '#'.
    let mut k: usize = sep + 3;
    let mut stop: usize = e;
    let mut stop_found: bool = false;
    while k < e
        invariant
            sep + 3 <= e,
            e <= n,
            n == uri@.len(),
            !stop_found ==> sep + 3 <= k <= e && stop == e && find_stop(uri@, sep as int + 3, e as int)
                == find_stop(uri@, k as int, e as int),
            stop_found ==> sep + 3 <= stop <= e && k == e && find_stop(
                uri@,
                sep as int + 3,
                e as int,
            ) == stop as int,
        decreases e - k,
    {
        let c = uri[k];
        if c == 63 || c == 35 {
            proof {
                assert(find_stop(uri@, k as int, e as int) == k as int);
            }
            stop = k;
            stop_found = true;
            k = e;
        } else {
            proof {
                assert(find_stop(uri@, k as int, e as int) == find_stop(uri@, k as int + 1, e as int));
            }
            k = k + 1;
        }
    }
    proof {
        assert(find_stop(uri@, sep as int + 3, e as int) == stop as int);
    }
    // Find the first '/' after the authority.
    let mut m: usize = sep + 3;
    let mut fs: usize = 0;
    let mut fs_found: bool = false;
    while m < stop
        invariant
            sep + 3 <= stop <= e,
            e <= n,
            n == uri@.len(),
            !fs_found ==> sep + 3 <= m <= stop && find_byte(uri@, 47, sep as int + 3, stop as int)
                == find_byte(uri@, 47, m as int, stop as int),
            fs_found ==> find_byte(uri@, 47, sep as int + 3, stop as int) == Some(fs as int) && sep
                + 3 <= fs < stop && uri@[fs as int] == 47 && m == stop,
        decreases stop - m,
    {
        if uri[m] == SLASH {
            proof {
                assert(find_byte(uri@, 47, m as int, stop as int) == Some(m as int));
            }
            fs = m;
            fs_found = true;
            m = stop;
        } else {
            proof {
                assert(find_byte(uri@, 47, m as int, stop as int) == find_byte(
                    uri@,
                    47,
                    m as int + 1,
                    stop as int,
                ));
            }
            m = m + 1;
        }
    }
    if !fs_found {
        proof {
            assert(find_byte(uri@, 47, sep as int + 3, stop as int) is None);
        }
        if stop == sep + 3 {
            return Err(Error::UrlParseError);
        } else {
            return Err(Error::NameDerivationError);
        }
    }
    if fs == sep + 3 {
        return Err(Error::UrlParseError);
    }
    // Find the last '/' before the end of the path.
    let mut q: usize = stop;
    let mut ls: usize = 0;
    let mut ls_found: bool = false;
    while q > fs
        invariant
            fs < stop <= e,
            e <= n,
            n == uri@.len(),
            uri@[fs as int] == 47,
            !ls_found ==> fs < q <= stop && rfind_byte(uri@, 47, fs as int, stop as int)
                == rfind_byte(uri@, 47, fs as int, q as int),
            ls_found ==> rfind_byte(uri@, 47, fs as int, stop as int) == Some(ls as int) && fs <= ls
                < stop && q == fs,
        decreases q,
    {
        if uri[q - 1] == SLASH {
            proof {
                assert(rfind_byte(uri@, 47, fs as int, q as int) == Some(q as int - 1));
            }
            ls = q - 1;
            ls_found = true;
            q = fs;
        } else {
            proof {
                assert(rfind_byte(uri@, 47, fs as int, q as int) == rfind_byte(
                    uri@,
                    47,
                    fs as int,
                    q as int - 1,
                ));
                // The byte at `fs` is a slash, so the scan cannot pass it.
                assert(q - 1 > fs);
            }
            q = q - 1;
        }
    }
    proof {
        assert(ls_found);
    }
    if ls + 1 == stop {
        return Err(Error::NameDerivationError);
    }
    // Copy out the final segment.
    let mut name: Vec<u8> = Vec::new();
    let mut t: usize = ls + 1;
    while t < stop
        invariant
            ls + 1 <= t <= stop <= e,
            e <= n,
            n == uri@.len(),
            name@ == uri@.subrange(ls as int + 1, t as int),
        decreases stop - t,
    {
        name.push(uri[t]);
        proof {
            assert(name@ =~= uri@.subrange(ls as int + 1, t as int + 1));
        }
        t = t + 1;
    }
    proof {
        assert(derive_name_spec(uri@) is Name);
        assert(name@ == derive_name_spec(uri@)->Name_0);
    }
    Ok(name)
}

/// The path of the installed binary: the download directory joined with
/// the binary name, with exactly one `/` between them.
pub open spec fn join_path(dir: Seq<u8>, name: Seq<u8>) -> Seq<u8> {
    if dir.len() == 0 {
        name
    } else if dir[dir.len() - 1] == 47 {
        dir + name
    } else {
        dir + seq![47u8] + name
    }
}

/// Joins a directory and a file name as `join_path` describes.
pub fn join_path_bytes(dir: &Vec<u8>, name: &Vec<u8>) -> (r: Vec<u8>)
    ensures
        r@ == join_path(dir@, name@),
{
    let mut r: Vec<u8> = Vec::new();
    let mut i: usize = 0;
    while i < dir.len()
        invariant
            i <= dir.len(),
            r@ == dir@.subrange(0, i as int),
        decreases dir.len() - i,
    {
        r.push(dir[i]);
        proof {
            assert(r@ =~= dir@.subrange(0, i as int + 1));
        }
        i = i + 1;
    }
    proof {
        assert(r@ =~= dir@);
    }
    if dir.len() > 0 && dir[dir.len() - 1] != SLASH {
        r.push(SLASH);
    }
    let ghost mid = r@;
    let mut t: usize = 0;
    while t < name.len()
        invariant
            t <= name.len(),
            r@ == mid + name@.subrange(0, t as int),
        decreases name.len() - t,
    {
        r.push(name[t]);
        proof {
            assert(r@ =~= mid + name@.subrange(0, t as int + 1));
        }
        t = t + 1;
    }
    proof {
        assert(name@.subrange(0, name@.len() as int) =~= name@);
        assert(r@ =~= join_path(dir@, name@));
    }
    r
}

} // verus!
