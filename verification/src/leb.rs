//! LEB128 variable-length integer encoding: the byte-level specification,
//! verified decoders, and the round-trip laws.
use vstd::prelude::*;
use vstd::arithmetic::div_mod::lemma_fundamental_div_mod;

verus! {

/// Unsigned LEB128: little-endian 7-bit groups, continuation bit set on all
/// bytes but the last.
pub open spec fn uleb(n: nat) -> Seq<u8>
    decreases n,
{
    if n < 128 {
        seq![n as u8]
    } else {
        seq![((n % 128) + 128) as u8] + uleb(n / 128)
    }
}

/// Signed LEB128: little-endian 7-bit groups with sign extension; the encoding
/// stops once the remaining bits are all sign bits.
pub open spec fn sleb(n: int) -> Seq<u8>
    decreases (if n < 0 { -n } else { n }),
{
    if -64 <= n && n < 64 {
        seq![(n % 128) as u8]
    } else {
        seq![((n % 128) + 128) as u8] + sleb(n / 128)
    }
}

/// Reading an unsigned LEB128 value from `s` starting at `i`: the value and
/// the position just past its last byte, or `None` if the bytes run out.
pub open spec fn uleb_decode_from(s: Seq<u8>, i: int) -> Option<(nat, int)>
    decreases s.len() - i,
{
    if i < 0 || i >= s.len() {
        None
    } else if s[i] < 128 {
        Some((s[i] as nat, i + 1))
    } else {
        match uleb_decode_from(s, i + 1) {
            Some((v, j)) => Some((((s[i] - 128) + 128 * v) as nat, j)),
            None => None,
        }
    }
}

/// Reading a signed LEB128 value from `s` starting at `i`.
pub open spec fn sleb_decode_from(s: Seq<u8>, i: int) -> Option<(int, int)>
    decreases s.len() - i,
{
    if i < 0 || i >= s.len() {
        None
    } else if s[i] < 64 {
        Some((s[i] as int, i + 1))
    } else if s[i] < 128 {
        Some((s[i] - 128, i + 1))
    } else {
        match sleb_decode_from(s, i + 1) {
            Some((v, j)) => Some(((s[i] - 128) + 128 * v, j)),
            None => None,
        }
    }
}

/// An unsigned encoding embedded anywhere in a byte string decodes to the
/// value it was made from, consuming exactly its own bytes.
pub proof fn lemma_uleb_decode_at(s: Seq<u8>, i: int, n: nat)
    requires
        0 <= i,
        i + uleb(n).len() <= s.len(),
        s.subrange(i, i + uleb(n).len() as int) == uleb(n),
    ensures
        uleb_decode_from(s, i) == Some((n, i + uleb(n).len() as int)),
    decreases n,
{
    if n < 128 {
        assert(s[i] == uleb(n)[0]);
    } else {
        let len = uleb(n).len() as int;
        assert(s[i] == uleb(n)[0]);
        assert(s[i] == (n % 128 + 128) as u8);
        assert(s.subrange(i + 1, i + len) =~= uleb(n / 128)) by {
            assert forall|k: int| 0 <= k < len - 1 implies #[trigger] s.subrange(i + 1, i + len)[k]
                == uleb(n / 128)[k] by {
                assert(s.subrange(i, i + len)[k + 1] == uleb(n)[k + 1]);
            }
        }
        lemma_uleb_decode_at(s, i + 1, n / 128);
        lemma_fundamental_div_mod(n as int, 128);
    }
}

/// A signed encoding embedded anywhere in a byte string decodes to the value
/// it was made from, consuming exactly its own bytes.
pub proof fn lemma_sleb_decode_at(s: Seq<u8>, i: int, n: int)
    requires
        0 <= i,
        i + sleb(n).len() <= s.len(),
        s.subrange(i, i + sleb(n).len() as int) == sleb(n),
    ensures
        sleb_decode_from(s, i) == Some((n, i + sleb(n).len() as int)),
    decreases (if n < 0 { -n } else { n }),
{
    if -64 <= n && n < 64 {
        assert(s[i] == sleb(n)[0]);
        if n >= 0 {
            assert(n % 128 == n);
        } else {
            assert(n % 128 == n + 128);
        }
    } else {
        let len = sleb(n).len() as int;
        assert(s[i] == sleb(n)[0]);
        assert(s[i] == (n % 128 + 128) as u8);
        assert(s.subrange(i + 1, i + len) =~= sleb(n / 128)) by {
            assert forall|k: int| 0 <= k < len - 1 implies #[trigger] s.subrange(i + 1, i + len)[k]
                == sleb(n / 128)[k] by {
                assert(s.subrange(i, i + len)[k + 1] == sleb(n)[k + 1]);
            }
        }
        lemma_sleb_decode_at(s, i + 1, n / 128);
        lemma_fundamental_div_mod(n, 128);
    }
}

/// LEB128 round trip, unsigned: decoding the encoding of any `u32` gives the
/// number back and consumes the whole encoding.
pub proof fn lemma_uleb_round_trip(n: u32)
    ensures
        uleb_decode_from(uleb(n as nat), 0) == Some((n as nat, uleb(n as nat).len() as int)),
{
    assert(uleb(n as nat).subrange(0, uleb(n as nat).len() as int) =~= uleb(n as nat));
    lemma_uleb_decode_at(uleb(n as nat), 0, n as nat);
}

/// LEB128 round trip, signed: decoding the encoding of any `i32` gives the
/// number back and consumes the whole encoding.
pub proof fn lemma_sleb_round_trip(n: i32)
    ensures
        sleb_decode_from(sleb(n as int), 0) == Some((n as int, sleb(n as int).len() as int)),
{
    assert(sleb(n as int).subrange(0, sleb(n as int).len() as int) =~= sleb(n as int));
    lemma_sleb_decode_at(sleb(n as int), 0, n as int);
}

/// Decoding looks only at the bytes up to the end of the encoded value, so a
/// value encoded at the front of a longer byte string decodes the same way.
pub proof fn lemma_uleb_decode_prefix(n: nat, rest: Seq<u8>)
    ensures
        uleb_decode_from(uleb(n) + rest, 0) == Some((n, uleb(n).len() as int)),
{
    let s = uleb(n) + rest;
    assert(s.subrange(0, uleb(n).len() as int) =~= uleb(n));
    lemma_uleb_decode_at(s, 0, n);
}

/// Reading an unsigned LEB128 value out of a byte slice: `Some((v, k))` when
/// the bytes starting at `i` decode to `v` fitting a `u32` with the value
/// ending at position `k`; `None` on malformed bytes or a too-large value.
pub fn decode_uleb_from(bytes: &[u8], i: usize) -> (r: Option<(u32, usize)>)
    ensures
        match uleb_decode_from(bytes@, i as int) {
            Some((v, j)) => {
                if v <= u32::MAX as nat {
                    r == Some((v as u32, j as usize))
                } else {
                    r is None
                }
            },
            None => r is None,
        },
    decreases bytes@.len() - i,
{
    if i >= bytes.len() {
        return None;
    }
    let b = bytes[i];
    if b < 128 {
        Some((b as u32, i + 1))
    } else {
        match decode_uleb_from(bytes, i + 1) {
            Some((v, j)) => {
                let w: u64 = (b - 128) as u64 + 128u64 * (v as u64);
                if w <= u32::MAX as u64 {
                    Some((w as u32, j))
                } else {
                    None
                }
            },
            None => None,
        }
    }
}

/// Reading a signed LEB128 value out of a byte slice: `Some((v, k))` when the
/// bytes starting at `i` decode to `v` fitting an `i32`; `None` otherwise.
pub fn decode_sleb_from(bytes: &[u8], i: usize) -> (r: Option<(i32, usize)>)
    ensures
        match sleb_decode_from(bytes@, i as int) {
            Some((v, j)) => {
                if i32::MIN as int <= v && v <= i32::MAX as int {
                    r == Some((v as i32, j as usize))
                } else {
                    r is None
                }
            },
            None => r is None,
        },
    decreases bytes@.len() - i,
{
    if i >= bytes.len() {
        return None;
    }
    let b = bytes[i];
    if b < 64 {
        Some((b as i32, i + 1))
    } else if b < 128 {
        Some((b as i32 - 128, i + 1))
    } else {
        match decode_sleb_from(bytes, i + 1) {
            Some((v, j)) => {
                let w: i64 = (b - 128) as i64 + 128i64 * (v as i64);
                if i32::MIN as i64 <= w && w <= i32::MAX as i64 {
                    Some((w as i32, j))
                } else {
                    None
                }
            },
            None => None,
        }
    }
}

/// Decoding an unsigned value never moves backwards and never runs past the
/// end of the input.
pub proof fn lemma_uleb_decode_bounds(s: Seq<u8>, i: int)
    requires
        uleb_decode_from(s, i) is Some,
    ensures
        i < uleb_decode_from(s, i)->Some_0.1 <= s.len(),
    decreases s.len() - i,
{
    if s[i] >= 128 {
        lemma_uleb_decode_bounds(s, i + 1);
    }
}

} // verus!
