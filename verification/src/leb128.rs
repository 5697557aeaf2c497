//! LEB128, the variable-length integer encoding of the WebAssembly binary format.

use vstd::prelude::*;

verus! {

/// `128^n`.
pub open spec fn pow128(n: nat) -> int
    decreases n,
{
    if n == 0 {
        1
    } else {
        128 * pow128((n - 1) as nat)
    }
}

/// The raw value and length of the LEB128 group at the start of `b`, read in
/// at most `max` bytes: each byte gives seven bits, low bits first, and every
/// byte but the last has its high bit set. `None` when the input ends or
/// `max` bytes pass before a byte without the high bit.
pub open spec fn leb_raw(b: Seq<u8>, max: nat) -> Option<(int, nat)>
    decreases max,
{
    if b.len() == 0 || max == 0 {
        None
    } else if b[0] < 0x80 {
        Some((b[0] as int, 1))
    } else {
        match leb_raw(b.drop_first(), (max - 1) as nat) {
            None => None,
            Some((v, n)) => Some(((b[0] - 0x80) + 128 * v, n + 1)),
        }
    }
}

/// The value of a signed group of `n` bytes with raw value `raw`.
pub open spec fn leb_signed(raw: int, n: nat) -> int {
    if raw >= pow128(n) / 2 {
        raw - pow128(n)
    } else {
        raw
    }
}

/// An unsigned 32-bit LEB128 at the start of `b`: the value and the bytes read.
pub open spec fn spec_leb_u32(b: Seq<u8>) -> Option<(u32, nat)> {
    match leb_raw(b, 5) {
        Some((v, n)) => if v < 0x1_0000_0000 {
            Some((v as u32, n))
        } else {
            None
        },
        None => None,
    }
}

/// A signed 32-bit LEB128 at the start of `b`.
pub open spec fn spec_leb_i32(b: Seq<u8>) -> Option<(i32, nat)> {
    match leb_raw(b, 5) {
        Some((v, n)) => if -0x8000_0000 <= leb_signed(v, n) < 0x8000_0000 {
            Some((leb_signed(v, n) as i32, n))
        } else {
            None
        },
        None => None,
    }
}

/// A signed 64-bit LEB128 at the start of `b`.
pub open spec fn spec_leb_i64(b: Seq<u8>) -> Option<(i64, nat)> {
    match leb_raw(b, 10) {
        Some((v, n)) => if -0x8000_0000_0000_0000 <= leb_signed(v, n) < 0x8000_0000_0000_0000 {
            Some((leb_signed(v, n) as i64, n))
        } else {
            None
        },
        None => None,
    }
}

proof fn lemma_pow128_ten()
    ensures
        pow128(10) == 0x40_0000_0000_0000_0000,
        pow128(5) == 0x8_0000_0000,
{
    assert(pow128(0) == 1);
    assert(pow128(1) == 0x80);
    assert(pow128(2) == 0x4000);
    assert(pow128(3) == 0x20_0000);
    assert(pow128(4) == 0x1000_0000);
    assert(pow128(5) == 0x8_0000_0000);
    assert(pow128(6) == 0x400_0000_0000);
    assert(pow128(7) == 0x2_0000_0000_0000);
    assert(pow128(8) == 0x100_0000_0000_0000);
    assert(pow128(9) == 0x8000_0000_0000_0000);
    assert(pow128(10) == 0x40_0000_0000_0000_0000);
}

proof fn lemma_pow128_mono(n: nat, m: nat)
    requires
        n <= m,
    ensures
        1 <= pow128(n) <= pow128(m),
    decreases m,
{
    if n < m {
        lemma_pow128_mono(n, (m - 1) as nat);
    } else if n > 0 {
        lemma_pow128_mono((n - 1) as nat, (n - 1) as nat);
    }
}

proof fn lemma_pow128_bounds(n: nat)
    requires
        n <= 10,
    ensures
        1 <= pow128(n) <= 0x40_0000_0000_0000_0000,
        n <= 5 ==> pow128(n) <= 0x8_0000_0000,
{
    lemma_pow128_ten();
    lemma_pow128_mono(n, 10);
    if n <= 5 {
        lemma_pow128_mono(n, 5);
    }
}

proof fn lemma_leb_raw_bounds(b: Seq<u8>, max: nat)
    requires
        max <= 10,
    ensures
        leb_raw(b, max) matches Some((v, n)) ==> 0 <= v < pow128(n) && 1 <= n <= max && n
            <= b.len(),
    decreases max,
{
    assert(pow128(0) == 1);
    assert(pow128(1) == 128);
    if b.len() > 0 && max > 0 && b[0] >= 0x80 {
        lemma_leb_raw_bounds(b.drop_first(), (max - 1) as nat);
        match leb_raw(b.drop_first(), (max - 1) as nat) {
            None => {},
            Some((v, n)) => {
                let low = b[0] - 0x80;
                assert(low + 128 * v < 128 * pow128(n)) by (nonlinear_arith)
                    requires
                        0 <= low < 128,
                        0 <= v < pow128(n),
                ;
                assert(pow128(n + 1) == 128 * pow128(n));
            },
        }
    }
}

/// The raw group starting at `pos`, exec side.
fn leb_raw_exec(b: &[u8], pos: usize, max: usize) -> (res: Option<(u128, usize)>)
    requires
        pos <= b@.len(),
        max <= 10,
    ensures
        match leb_raw(b@.subrange(pos as int, b@.len() as int), max as nat) {
            None => res is None,
            Some((v, n)) => res matches Some((w, m)) && w == v && m == n,
        },
    decreases max,
{
    let ghost s = b@.subrange(pos as int, b@.len() as int);
    if pos >= b.len() || max == 0 {
        return None;
    }
    let byte = b[pos];
    assert(s[0] == byte);
    if byte < 0x80 {
        return Some((byte as u128, 1));
    }
    assert(s.drop_first() =~= b@.subrange(pos + 1, b@.len() as int));
    match leb_raw_exec(b, pos + 1, max - 1) {
        None => None,
        Some((v, n)) => {
            proof {
                lemma_leb_raw_bounds(s.drop_first(), (max - 1) as nat);
                lemma_pow128_bounds(n as nat);
            }
            Some((((byte - 0x80) as u128) + 128 * v, n + 1))
        },
    }
}

/// Reads an unsigned 32-bit LEB128 at `pos`: the value and the bytes read.
pub fn read_leb_u32(b: &[u8], pos: usize) -> (res: Option<(u32, usize)>)
    requires
        pos <= b@.len(),
    ensures
        match spec_leb_u32(b@.subrange(pos as int, b@.len() as int)) {
            None => res is None,
            Some((v, n)) => res matches Some((v2, n2)) && v2 == v && n2 == n,
        },
        res matches Some((v, n)) ==> pos + n <= b@.len(),
{
    proof {
        lemma_leb_raw_bounds(b@.subrange(pos as int, b@.len() as int), 5);
    }
    match leb_raw_exec(b, pos, 5) {
        None => None,
        Some((v, n)) => if v < 0x1_0000_0000 {
            Some((v as u32, n))
        } else {
            None
        },
    }
}

/// Reads a signed 32-bit LEB128 at `pos`.
pub fn read_leb_i32(b: &[u8], pos: usize) -> (res: Option<(i32, usize)>)
    requires
        pos <= b@.len(),
    ensures
        match spec_leb_i32(b@.subrange(pos as int, b@.len() as int)) {
            None => res is None,
            Some((v, n)) => res matches Some((v2, n2)) && v2 == v && n2 == n,
        },
        res matches Some((v, n)) ==> pos + n <= b@.len(),
{
    proof {
        lemma_leb_raw_bounds(b@.subrange(pos as int, b@.len() as int), 5);
    }
    match leb_raw_exec(b, pos, 5) {
        None => None,
        Some((v, n)) => {
            proof {
                lemma_pow128_bounds(n as nat);
            }
            let p = pow128_exec(n);
            let signed: i128 = if v >= p / 2 {
                v as i128 - p as i128
            } else {
                v as i128
            };
            if -0x8000_0000 <= signed && signed < 0x8000_0000 {
                Some((signed as i32, n))
            } else {
                None
            }
        },
    }
}

/// Reads a signed 64-bit LEB128 at `pos`.
pub fn read_leb_i64(b: &[u8], pos: usize) -> (res: Option<(i64, usize)>)
    requires
        pos <= b@.len(),
    ensures
        match spec_leb_i64(b@.subrange(pos as int, b@.len() as int)) {
            None => res is None,
            Some((v, n)) => res matches Some((v2, n2)) && v2 == v && n2 == n,
        },
        res matches Some((v, n)) ==> pos + n <= b@.len(),
{
    proof {
        lemma_leb_raw_bounds(b@.subrange(pos as int, b@.len() as int), 10);
    }
    match leb_raw_exec(b, pos, 10) {
        None => None,
        Some((v, n)) => {
            proof {
                lemma_pow128_bounds(n as nat);
            }
            let p = pow128_exec(n);
            let signed: i128 = if v >= p / 2 {
                v as i128 - p as i128
            } else {
                v as i128
            };
            if -0x8000_0000_0000_0000 <= signed && signed < 0x8000_0000_0000_0000 {
                Some((signed as i64, n))
            } else {
                None
            }
        },
    }
}

fn pow128_exec(n: usize) -> (res: u128)
    requires
        n <= 10,
    ensures
        res == pow128(n as nat),
    decreases n,
{
    proof {
        lemma_pow128_bounds(n as nat);
    }
    if n == 0 {
        1
    } else {
        proof {
            lemma_pow128_bounds((n - 1) as nat);
        }
        128 * pow128_exec(n - 1)
    }
}

} // verus!
