//! Checksums written as hexadecimal digits.

use vstd::prelude::*;
use crate::error::{Error, ErrorView};
use crate::text::chars_of;

verus! {

/// An MD5 digest.
pub type MD5 = [u8; 16];

/// A SHA-256 digest.
pub type SHA256 = [u8; 32];

/// The value of a hexadecimal digit (either case).
pub open spec fn hex_value(c: char) -> Option<u8> {
    if '0' <= c && c <= '9' {
        Some((c as u32 - '0' as u32) as u8)
    } else if 'a' <= c && c <= 'f' {
        Some((c as u32 - 'a' as u32 + 10) as u8)
    } else if 'A' <= c && c <= 'F' {
        Some((c as u32 - 'A' as u32 + 10) as u8)
    } else {
        None
    }
}

/// The `n` bytes that exactly `2 * n` hexadecimal digits spell, high digit first.
pub open spec fn hex_decode(s: Seq<char>, n: nat) -> Option<Seq<u8>> {
    if s.len() == 2 * n && forall|i: int| 0 <= i < s.len() ==> (#[trigger] hex_value(s[i])) is Some {
        Some(Seq::new(n, |i: int| (hex_value(s[2 * i])->0 * 16 + hex_value(s[2 * i + 1])->0) as u8))
    } else {
        None
    }
}

fn hex_digit(c: char) -> (r: Option<u8>)
    ensures
        r == hex_value(c),
{
    if '0' <= c && c <= '9' {
        Some((c as u32 - '0' as u32) as u8)
    } else if 'a' <= c && c <= 'f' {
        Some((c as u32 - 'a' as u32 + 10) as u8)
    } else if 'A' <= c && c <= 'F' {
        Some((c as u32 - 'A' as u32 + 10) as u8)
    } else {
        None
    }
}

/// The bytes that `s` spells, when it is exactly `2 * n` hexadecimal digits.
fn decode_hex(s: &str, n: usize) -> (r: Option<Vec<u8>>)
    requires
        n <= 64,
    ensures
        match r {
            Some(v) => hex_decode(s@, n as nat) == Some(v@),
            None => hex_decode(s@, n as nat) is None,
        },
{
    let cs = chars_of(s);
    if cs.len() != 2 * n {
        return None;
    }
    let mut out: Vec<u8> = Vec::new();
    let mut i: usize = 0;
    while i < n
        invariant
            cs@ == s@,
            cs.len() == 2 * n,
            n <= 64,
            i <= n,
            out@.len() == i,
            forall|k: int| 0 <= k < 2 * i ==> (#[trigger] hex_value(s@[k])) is Some,
            forall|k: int| 0 <= k < i ==> out@[k] == (hex_value(s@[2 * k])->0 * 16 + hex_value(s@[2 * k + 1])->0) as u8,
        decreases n - i,
    {
        let hi = hex_digit(cs[2 * i]);
        let lo = hex_digit(cs[2 * i + 1]);
        match (hi, lo) {
            (Some(h), Some(l)) => {
                assert(h < 16 && l < 16);
                out.push(h * 16 + l);
            },
            _ => {
                return None;
            },
        }
        i += 1;
    }
    assert(out@ =~= Seq::new(n as nat, |k: int| (hex_value(s@[2 * k])->0 * 16 + hex_value(s@[2 * k + 1])->0) as u8));
    Some(out)
}

/// Reads an MD5 digest: exactly 32 hexadecimal digits.
pub fn parse_md5(s: &str) -> (r: Result<MD5, Error>)
    ensures
        match hex_decode(s@, 16) {
            Some(b) => r matches Ok(a) && a@ == b,
            None => r matches Err(e) && e@ == ErrorView::BadChecksum(s@),
        },
{
    match decode_hex(s, 16) {
        None => Err(Error::BadChecksum(String::from_str(s))),
        Some(v) => {
            let mut a: [u8; 16] = [0u8; 16];
            let mut i: usize = 0;
            while i < 16
                invariant
                    v@.len() == 16,
                    i <= 16,
                    forall|k: int| 0 <= k < i ==> a@[k] == v@[k],
                decreases 16 - i,
            {
                a[i] = v[i];
                i += 1;
            }
            assert(a@ =~= v@);
            Ok(a)
        },
    }
}

/// Reads a SHA-256 digest: exactly 64 hexadecimal digits.
pub fn parse_sha256(s: &str) -> (r: Result<SHA256, Error>)
    ensures
        match hex_decode(s@, 32) {
            Some(b) => r matches Ok(a) && a@ == b,
            None => r matches Err(e) && e@ == ErrorView::BadChecksum(s@),
        },
{
    match decode_hex(s, 32) {
        None => Err(Error::BadChecksum(String::from_str(s))),
        Some(v) => {
            let mut a: [u8; 32] = [0u8; 32];
            let mut i: usize = 0;
            while i < 32
                invariant
                    v@.len() == 32,
                    i <= 32,
                    forall|k: int| 0 <= k < i ==> a@[k] == v@[k],
                decreases 32 - i,
            {
                a[i] = v[i];
                i += 1;
            }
            assert(a@ =~= v@);
            Ok(a)
        },
    }
}

} // verus!
