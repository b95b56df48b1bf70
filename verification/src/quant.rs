//! Quantized arithmetic for the evaluator: wrapping 16- and 32-bit
//! sums stated over unbounded integers, and little-endian field readers
//! for the network file.

use vstd::prelude::*;

use vstd::arithmetic::div_mod::lemma_mod_multiples_vanish;

verus! {

/// An integer reduced into the signed 16-bit range, congruent modulo
/// two to the 16.
pub open spec fn wrap16(x: int) -> i16 {
    let n = x % 0x10000;
    if n >= 0x8000 {
        (n - 0x10000) as i16
    } else {
        n as i16
    }
}

/// An integer reduced into the signed 32-bit range, congruent modulo
/// two to the 32.
pub open spec fn wrap32(x: int) -> i32 {
    let n = x % 0x1_0000_0000;
    if n >= 0x8000_0000 {
        (n - 0x1_0000_0000) as i32
    } else {
        n as i32
    }
}

/// Wrapping reduction absorbs an inner reduction.
pub proof fn lemma_wrap16_absorb(x: int, y: int)
    ensures
        wrap16(wrap16(x) + y) == wrap16(x + y),
{
    let m = 0x10000;
    let q = x / m;
    vstd::arithmetic::div_mod::lemma_fundamental_div_mod(x, m);
    if x % m >= 0x8000 {
        assert(wrap16(x) as int == x - m * q - m);
        lemma_mod_multiples_vanish(-q - 1, x + y, m);
        assert((m * (-q - 1) + (x + y)) % m == (x + y) % m);
        assert(wrap16(x) + y == m * (-q - 1) + (x + y));
    } else {
        assert(wrap16(x) as int == x - m * q);
        lemma_mod_multiples_vanish(-q, x + y, m);
        assert((m * (-q) + (x + y)) % m == (x + y) % m);
        assert(wrap16(x) + y == m * (-q) + (x + y));
    }
}

/// A value already in range reduces to itself.
pub proof fn lemma_wrap16_id(x: int)
    requires
        -0x8000 <= x < 0x8000,
    ensures
        wrap16(x) == x,
{
    if x >= 0 {
        assert(x % 0x10000 == x);
    } else {
        lemma_mod_multiples_vanish(1, x, 0x10000);
        assert((0x10000 + x) % 0x10000 == x % 0x10000);
        assert((0x10000 + x) % 0x10000 == 0x10000 + x);
    }
}

pub proof fn lemma_wrap32_id(x: int)
    requires
        -0x8000_0000 <= x < 0x8000_0000,
    ensures
        wrap32(x) == x,
{
    if x >= 0 {
        assert(x % 0x1_0000_0000 == x);
    } else {
        lemma_mod_multiples_vanish(1, x, 0x1_0000_0000);
        assert((0x1_0000_0000 + x) % 0x1_0000_0000 == x % 0x1_0000_0000);
        assert((0x1_0000_0000 + x) % 0x1_0000_0000 == 0x1_0000_0000 + x);
    }
}

/// A value one period away from range shifts back by one period.
pub proof fn lemma_wrap32_shift(x: int)
    requires
        -0x1_8000_0000 <= x < 0x1_8000_0000,
    ensures
        x >= 0x8000_0000 ==> wrap32(x) == x - 0x1_0000_0000,
        x < -0x8000_0000 ==> wrap32(x) == x + 0x1_0000_0000,
{
    let m = 0x1_0000_0000;
    if x >= 0x8000_0000 {
        if x < m {
            assert(x % m == x);
        } else {
            lemma_mod_multiples_vanish(-1, x, m);
            assert((m * -1 + x) % m == x % m);
            assert((x - m) % m == x - m);
        }
    } else if x < -0x8000_0000 {
        lemma_mod_multiples_vanish(1, x, m);
        assert((m + x) % m == x % m);
        if m + x >= 0 {
            assert((m + x) % m == m + x);
        } else {
            lemma_mod_multiples_vanish(2, x, m);
            assert((m * 2 + x) % m == x % m);
            assert((m * 2 + x) % m == m * 2 + x);
        }
    }
}

/// Add two 16-bit values with wrapping.
pub fn add16(a: i16, b: i16) -> (r: i16)
    ensures
        r == wrap16(a + b),
{
    let r = a.wrapping_add(b);
    proof {
        lemma_wrap16_id_range(a as int + b as int, r as int);
    }
    r
}

/// Subtract two 16-bit values with wrapping.
pub fn sub16(a: i16, b: i16) -> (r: i16)
    ensures
        r == wrap16(a - b),
{
    let r = a.wrapping_sub(b);
    proof {
        lemma_wrap16_id_range(a as int - b as int, r as int);
    }
    r
}

/// The vstd wrapping result is the modular reduction.
proof fn lemma_wrap16_id_range(x: int, r: int)
    requires
        -0x8000 <= r < 0x8000,
        r == x || r == x - 0x10000 || r == x + 0x10000,
    ensures
        r == wrap16(x),
{
    if r == x {
        lemma_wrap16_id(x);
    } else if r == x - 0x10000 {
        lemma_wrap16_id(r);
        lemma_mod_multiples_vanish(1, r, 0x10000);
        assert((0x10000 + r) % 0x10000 == r % 0x10000);
    } else {
        lemma_wrap16_id(r);
        lemma_mod_multiples_vanish(-1, r, 0x10000);
        assert((0x10000 * -1 + r) % 0x10000 == r % 0x10000);
    }
}

/// The unsigned 16-bit value of two little-endian bytes.
pub open spec fn spec_le16(b0: u8, b1: u8) -> u16 {
    (b0 + b1 * 256) as u16
}

/// The signed 16-bit value of two little-endian bytes.
pub open spec fn spec_le_i16(b0: u8, b1: u8) -> i16 {
    let v = spec_le16(b0, b1);
    if v >= 0x8000 {
        (v - 0x10000) as i16
    } else {
        v as i16
    }
}

/// The unsigned 32-bit value of four little-endian bytes.
pub open spec fn spec_le32(b0: u8, b1: u8, b2: u8, b3: u8) -> u32 {
    (b0 + b1 * 0x100 + b2 * 0x1_0000 + b3 * 0x100_0000) as u32
}

/// The signed 32-bit value of four little-endian bytes.
pub open spec fn spec_le_i32(b0: u8, b1: u8, b2: u8, b3: u8) -> i32 {
    let v = spec_le32(b0, b1, b2, b3);
    if v >= 0x8000_0000 {
        (v - 0x1_0000_0000) as i32
    } else {
        v as i32
    }
}

/// Read a signed 16-bit little-endian field.
pub fn read_i16(data: &Vec<u8>, pos: usize) -> (r: i16)
    requires
        pos + 2 <= data.len(),
    ensures
        r == spec_le_i16(data[pos as int], data[pos as int + 1]),
{
    let b0 = data[pos] as u16;
    let b1 = data[pos + 1] as u16;
    let v: u16 = b0 + b1 * 256;
    if v >= 0x8000 {
        ((v as i32) - 0x10000) as i16
    } else {
        v as i16
    }
}

/// Read an unsigned 32-bit little-endian field.
pub fn read_u32(data: &Vec<u8>, pos: usize) -> (r: u32)
    requires
        pos + 4 <= data.len(),
    ensures
        r == spec_le32(
            data[pos as int],
            data[pos as int + 1],
            data[pos as int + 2],
            data[pos as int + 3],
        ),
{
    let b0 = data[pos] as u32;
    let b1 = data[pos + 1] as u32;
    let b2 = data[pos + 2] as u32;
    let b3 = data[pos + 3] as u32;
    b0 + b1 * 0x100 + b2 * 0x1_0000 + b3 * 0x100_0000
}

/// Read a signed 32-bit little-endian field.
pub fn read_i32(data: &Vec<u8>, pos: usize) -> (r: i32)
    requires
        pos + 4 <= data.len(),
    ensures
        r == spec_le_i32(
            data[pos as int],
            data[pos as int + 1],
            data[pos as int + 2],
            data[pos as int + 3],
        ),
{
    let v = read_u32(data, pos);
    if v >= 0x8000_0000 {
        ((v as i64) - 0x1_0000_0000) as i32
    } else {
        v as i32
    }
}

/// Read a byte as a signed 8-bit weight.
pub fn read_i8(data: &Vec<u8>, pos: usize) -> (r: i8)
    requires
        pos < data.len(),
    ensures
        r == ({
            let b = data[pos as int];
            if b >= 0x80 {
                (b - 0x100) as i8
            } else {
                b as i8
            }
        }),
{
    let b = data[pos];
    if b >= 0x80 {
        ((b as i16) - 0x100) as i8
    } else {
        b as i8
    }
}

/// Read a run of signed 16-bit little-endian values.
pub fn read_i16_vec(data: &Vec<u8>, pos: usize, count: usize) -> (r: Vec<i16>)
    requires
        pos + 2 * count <= data.len(),
    ensures
        r.len() == count,
        forall|k: int|
            0 <= k < count ==> #[trigger] r[k] == spec_le_i16(
                data[pos + 2 * k],
                data[pos + 2 * k + 1],
            ),
{
    let mut r: Vec<i16> = Vec::new();
    while r.len() < count
        invariant
            r.len() <= count,
            pos + 2 * count <= data.len(),
            forall|k: int|
                0 <= k < r.len() ==> #[trigger] r[k] == spec_le_i16(
                    data[pos + 2 * k],
                    data[pos + 2 * k + 1],
                ),
        decreases count - r.len(),
    {
        let k = r.len();
        r.push(read_i16(data, pos + 2 * k));
    }
    r
}

/// Read a run of signed 8-bit values.
pub fn read_i8_vec(data: &Vec<u8>, pos: usize, count: usize) -> (r: Vec<i8>)
    requires
        pos + count <= data.len(),
    ensures
        r.len() == count,
        forall|k: int|
            0 <= k < count ==> #[trigger] r[k] == ({
                let b = data[pos + k];
                if b >= 0x80 {
                    (b - 0x100) as i8
                } else {
                    b as i8
                }
            }),
{
    let mut r: Vec<i8> = Vec::new();
    while r.len() < count
        invariant
            r.len() <= count,
            pos + count <= data.len(),
            forall|k: int|
                0 <= k < r.len() ==> #[trigger] r[k] == ({
                    let b = data[pos + k];
                    if b >= 0x80 {
                        (b - 0x100) as i8
                    } else {
                        b as i8
                    }
                }),
        decreases count - r.len(),
    {
        let k = r.len();
        r.push(read_i8(data, pos + k));
    }
    r
}

/// Read a run of signed 32-bit little-endian values.
pub fn read_i32_vec(data: &Vec<u8>, pos: usize, count: usize) -> (r: Vec<i32>)
    requires
        pos + 4 * count <= data.len(),
    ensures
        r.len() == count,
        forall|k: int|
            0 <= k < count ==> #[trigger] r[k] == spec_le_i32(
                data[pos + 4 * k],
                data[pos + 4 * k + 1],
                data[pos + 4 * k + 2],
                data[pos + 4 * k + 3],
            ),
{
    let mut r: Vec<i32> = Vec::new();
    while r.len() < count
        invariant
            r.len() <= count,
            pos + 4 * count <= data.len(),
            forall|k: int|
                0 <= k < r.len() ==> #[trigger] r[k] == spec_le_i32(
                    data[pos + 4 * k],
                    data[pos + 4 * k + 1],
                    data[pos + 4 * k + 2],
                    data[pos + 4 * k + 3],
                ),
        decreases count - r.len(),
    {
        let k = r.len();
        r.push(read_i32(data, pos + 4 * k));
    }
    r
}

} // verus!
