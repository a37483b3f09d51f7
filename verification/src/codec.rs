//! The binary wire encoding: a compact, self-describing format of
//! string-keyed maps whose values are byte strings or unsigned integers.
//! A string is a one-to-five-byte header carrying its byte length followed
//! by the bytes themselves; an unsigned integer is written in its shortest
//! form; a small map is a single header byte carrying the entry count.
//! Encoders write the shortest header for each length, the reader accepts
//! every string header form.

use vstd::prelude::*;
use vstd::arithmetic::div_mod::{lemma_div_denominator, lemma_fundamental_div_mod};
use vstd::slice::slice_to_vec;

verus! {

/// Longest byte string the wire format can carry.
pub const MAX_STR_BYTES: u64 = 0xFFFF_FFFF;

/// A byte-string length fits the wire format.
pub open spec fn str_len_fits(len: nat) -> bool {
    len < 0x1_0000_0000
}

/// The header announcing a byte string of length `len`: the shortest of the
/// four forms that holds it.
pub open spec fn mp_str_header(len: nat) -> Seq<u8>
    recommends
        str_len_fits(len),
{
    if len < 32 {
        seq![(0xa0 + len) as u8]
    } else if len < 256 {
        seq![0xd9u8, len as u8]
    } else if len < 65536 {
        seq![0xdau8, (len / 256) as u8, (len % 256) as u8]
    } else {
        seq![
            0xdbu8,
            (len / 0x1000000) as u8,
            ((len / 0x10000) % 256) as u8,
            ((len / 256) % 256) as u8,
            (len % 256) as u8,
        ]
    }
}

/// The wire form of the byte string `b`: header, then the bytes.
pub open spec fn mp_str(b: Seq<u8>) -> Seq<u8>
    recommends
        str_len_fits(b.len()),
{
    mp_str_header(b.len()) + b
}

/// The wire form of an unsigned integer: the shortest of the five forms.
pub open spec fn mp_uint(n: u64) -> Seq<u8> {
    let m = n as nat;
    if m < 128 {
        seq![n as u8]
    } else if m < 256 {
        seq![0xccu8, n as u8]
    } else if m < 65536 {
        seq![0xcdu8, (m / 256) as u8, (m % 256) as u8]
    } else if m < 0x1_0000_0000 {
        seq![
            0xceu8,
            (m / 0x1000000) as u8,
            ((m / 0x10000) % 256) as u8,
            ((m / 256) % 256) as u8,
            (m % 256) as u8,
        ]
    } else {
        seq![
            0xcfu8,
            (m / 0x100000000000000) as u8,
            ((m / 0x1000000000000) % 256) as u8,
            ((m / 0x10000000000) % 256) as u8,
            ((m / 0x100000000) % 256) as u8,
            ((m / 0x1000000) % 256) as u8,
            ((m / 0x10000) % 256) as u8,
            ((m / 256) % 256) as u8,
            (m % 256) as u8,
        ]
    }
}

/// The header of a map of `n` entries, for small `n`.
pub open spec fn mp_fixmap(n: nat) -> Seq<u8>
    recommends
        n <= 15,
{
    seq![(0x80 + n) as u8]
}

/// Append the wire form of the byte string `b`; refuse (and leave the
/// output untouched) exactly when `b` is too long for the format.
pub fn write_mp_str(out: &mut Vec<u8>, b: &[u8]) -> (ok: bool)
    ensures
        ok <==> str_len_fits(b@.len()),
        ok ==> final(out)@ == old(out)@ + mp_str(b@),
        !ok ==> final(out)@ == old(out)@,
{
    let len = b.len();
    if (len as u64) > MAX_STR_BYTES {
        return false;
    }
    if len < 32 {
        out.push(0xa0u8 + len as u8);
    } else if len < 256 {
        out.push(0xd9u8);
        out.push(len as u8);
    } else if len < 65536 {
        out.push(0xdau8);
        out.push((len / 256) as u8);
        out.push((len % 256) as u8);
    } else {
        let l = len as u64;
        out.push(0xdbu8);
        out.push((l / 0x1000000) as u8);
        out.push(((l / 0x10000) % 256) as u8);
        out.push(((l / 256) % 256) as u8);
        out.push((l % 256) as u8);
    }
    proof {
        assert(out@ =~= old(out)@ + mp_str_header(b@.len()));
    }
    out.extend_from_slice(b);
    proof {
        assert(out@ =~= old(out)@ + mp_str(b@));
    }
    true
}

/// Append the wire form of the unsigned integer `n`.
pub fn write_mp_uint(out: &mut Vec<u8>, n: u64)
    ensures
        final(out)@ == old(out)@ + mp_uint(n),
{
    if n < 128 {
        out.push(n as u8);
    } else if n < 256 {
        out.push(0xccu8);
        out.push(n as u8);
    } else if n < 65536 {
        out.push(0xcdu8);
        out.push((n / 256) as u8);
        out.push((n % 256) as u8);
    } else if n < 0x1_0000_0000 {
        out.push(0xceu8);
        out.push((n / 0x1000000) as u8);
        out.push(((n / 0x10000) % 256) as u8);
        out.push(((n / 256) % 256) as u8);
        out.push((n % 256) as u8);
    } else {
        out.push(0xcfu8);
        out.push((n / 0x100000000000000) as u8);
        out.push(((n / 0x1000000000000) % 256) as u8);
        out.push(((n / 0x10000000000) % 256) as u8);
        out.push(((n / 0x100000000) % 256) as u8);
        out.push(((n / 0x1000000) % 256) as u8);
        out.push(((n / 0x10000) % 256) as u8);
        out.push(((n / 256) % 256) as u8);
        out.push((n % 256) as u8);
    }
    proof {
        assert(out@ =~= old(out)@ + mp_uint(n));
    }
}

/// Append the header of a map of `n` entries.
pub fn write_mp_fixmap(out: &mut Vec<u8>, n: u8)
    requires
        n <= 15,
    ensures
        final(out)@ == old(out)@ + mp_fixmap(n as nat),
{
    out.push(0x80u8 + n);
    proof {
        assert(out@ =~= old(out)@ + mp_fixmap(n as nat));
    }
}

/// Whether two byte runs are equal.
pub fn bytes_eq(a: &[u8], b: &[u8]) -> (r: bool)
    ensures
        r == (a@ == b@),
{
    let n = a.len();
    if n != b.len() {
        return false;
    }
    let mut i: usize = 0;
    while i < n
        invariant
            n == a@.len(),
            n == b@.len(),
            i <= n,
            forall|j: int| 0 <= j < i ==> a@[j] == b@[j],
        decreases n - i,
    {
        if a[i] != b[i] {
            return false;
        }
        i += 1;
    }
    proof {
        assert(a@ =~= b@);
    }
    true
}

/// Read one byte string starting at `pos`: the bytes it holds and the
/// position after it, or nothing when `pos` does not start a well-formed
/// byte string that lies inside `b`.
pub open spec fn parse_str_at(b: Seq<u8>, pos: int) -> Option<(Seq<u8>, int)> {
    if 0 <= pos < b.len() {
        let h = b[pos];
        if 0xa0 <= h <= 0xbf {
            let l = (h - 0xa0) as int;
            if pos + 1 + l <= b.len() {
                Some((b.subrange(pos + 1, pos + 1 + l), pos + 1 + l))
            } else {
                None
            }
        } else if h == 0xd9 {
            if pos + 2 <= b.len() {
                let l = b[pos + 1] as int;
                if pos + 2 + l <= b.len() {
                    Some((b.subrange(pos + 2, pos + 2 + l), pos + 2 + l))
                } else {
                    None
                }
            } else {
                None
            }
        } else if h == 0xda {
            if pos + 3 <= b.len() {
                let l = b[pos + 1] as int * 256 + b[pos + 2] as int;
                if pos + 3 + l <= b.len() {
                    Some((b.subrange(pos + 3, pos + 3 + l), pos + 3 + l))
                } else {
                    None
                }
            } else {
                None
            }
        } else if h == 0xdb {
            if pos + 5 <= b.len() {
                let l = b[pos + 1] as int * 0x1000000 + b[pos + 2] as int * 0x10000 + b[pos
                    + 3] as int * 256 + b[pos + 4] as int;
                if pos + 5 + l <= b.len() {
                    Some((b.subrange(pos + 5, pos + 5 + l), pos + 5 + l))
                } else {
                    None
                }
            } else {
                None
            }
        } else {
            None
        }
    } else {
        None
    }
}

/// Reading at the start of an encoded byte string inside a larger buffer
/// recovers exactly the bytes that were encoded, and stops right after
/// them: the reader inverts the writer wherever the writer's output stands.
pub proof fn lemma_parse_mp_str(buf: Seq<u8>, pos: int, b: Seq<u8>)
    requires
        0 <= pos,
        str_len_fits(b.len()),
        pos + mp_str(b).len() <= buf.len(),
        buf.subrange(pos, pos + mp_str(b).len() as int) == mp_str(b),
    ensures
        parse_str_at(buf, pos) == Some((b, pos + mp_str(b).len())),
{
    let s = mp_str(b);
    let h = mp_str_header(b.len());
    let hl = h.len() as int;
    let len = b.len() as int;
    let sub = buf.subrange(pos, pos + s.len() as int);
    assert(sub == s);
    assert(buf[pos] == sub[0] && sub[0] == s[0] && s[0] == h[0]);
    if hl >= 2 {
        assert(buf[pos + 1] == sub[1] && sub[1] == s[1] && s[1] == h[1]);
    }
    if hl >= 3 {
        assert(buf[pos + 2] == sub[2] && sub[2] == s[2] && s[2] == h[2]);
    }
    if hl >= 5 {
        assert(buf[pos + 3] == sub[3] && sub[3] == s[3] && s[3] == h[3]);
        assert(buf[pos + 4] == sub[4] && sub[4] == s[4] && s[4] == h[4]);
    }
    if len >= 65536 {
        let x = len;
        lemma_fundamental_div_mod(x, 256);
        lemma_fundamental_div_mod(x / 256, 256);
        lemma_div_denominator(x, 256, 256);
        lemma_fundamental_div_mod(x / 65536, 256);
        lemma_div_denominator(x, 65536, 256);
        assert(x == (x / 0x1000000) * 0x1000000 + ((x / 0x10000) % 256) * 0x10000 + ((x / 256)
            % 256) * 256 + x % 256);
    } else if len >= 256 {
        lemma_fundamental_div_mod(len, 256);
    }
    let parsed_len: int = if len < 32 {
        (h[0] - 0xa0) as int
    } else if len < 256 {
        buf[pos + 1] as int
    } else if len < 65536 {
        buf[pos + 1] as int * 256 + buf[pos + 2] as int
    } else {
        buf[pos + 1] as int * 0x1000000 + buf[pos + 2] as int * 0x10000 + buf[pos + 3] as int * 256
            + buf[pos + 4] as int
    };
    assert(parsed_len == len);
    assert(buf.subrange(pos + hl, pos + hl + len) =~= b) by {
        assert forall|i: int| 0 <= i < len implies buf[pos + hl + i] == b[i] by {
            assert(buf[pos + hl + i] == sub[hl + i]);
            assert(sub[hl + i] == s[hl + i]);
            assert(s[hl + i] == b[i]);
        }
    }
}

/// Read one byte string of the frame, starting at `pos`.
pub fn read_mp_str(frame: &[u8], pos: usize) -> (r: Option<(Vec<u8>, usize)>)
    ensures
        r is Some <==> parse_str_at(frame@, pos as int) is Some,
        r matches Some(p) ==> parse_str_at(frame@, pos as int) == Some((p.0@, p.1 as int)),
{
    let n = frame.len();
    if pos >= n {
        return None;
    }
    let h = frame[pos];
    let (body_start, len): (usize, u64) = if 0xa0 <= h && h <= 0xbf {
        (pos + 1, (h - 0xa0) as u64)
    } else if h == 0xd9 {
        if n - pos < 2 {
            return None;
        }
        (pos + 2, frame[pos + 1] as u64)
    } else if h == 0xda {
        if n - pos < 3 {
            return None;
        }
        (pos + 3, frame[pos + 1] as u64 * 256 + frame[pos + 2] as u64)
    } else if h == 0xdb {
        if n - pos < 5 {
            return None;
        }
        (
            pos + 5,
            frame[pos + 1] as u64 * 0x1000000 + frame[pos + 2] as u64 * 0x10000 + frame[pos
                + 3] as u64 * 256 + frame[pos + 4] as u64,
        )
    } else {
        return None;
    };
    if len > (n as u64) || (body_start as u64) > (n as u64) - len {
        return None;
    }
    let body_end = body_start + (len as usize);
    let v = slice_to_vec(&frame[body_start..body_end]);
    Some((v, body_end))
}

} // verus!
