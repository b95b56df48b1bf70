//! Pre-computed attack tables: knight and king jump masks, and magic
//! bitboards for the sliding pieces.
//!
//! A sliding lookup hashes the blockers on the piece's inner rays with a
//! fixed magic constant. The tables are rebuilt at start-up and then
//! checked square by square against the straight ray walk; the
//! well-formedness predicate records exactly what that check showed, and
//! from it every lookup is proved equal to the ray computation.

use vstd::prelude::*;

use vstd::std_specs::bits::axiom_u64_trailing_zeros;
use vstd::std_specs::bits::u64_trailing_zeros;

verus! {

/// The bit of the square `dr` ranks and `df` files away from `sq`,
/// or no bit when that square is off the board.
pub open spec fn jump_bit(sq: int, dr: int, df: int) -> u64 {
    let r = sq / 8 + dr;
    let f = sq % 8 + df;
    if 0 <= r < 8 && 0 <= f < 8 {
        1u64 << ((r * 8 + f) as u64)
    } else {
        0
    }
}

/// The eight knight jumps from a square.
pub open spec fn spec_knight_mask(sq: int) -> u64 {
    jump_bit(sq, -2, -1) | jump_bit(sq, -2, 1) | jump_bit(sq, -1, -2) | jump_bit(sq, -1, 2)
        | jump_bit(sq, 1, -2) | jump_bit(sq, 1, 2) | jump_bit(sq, 2, -1) | jump_bit(sq, 2, 1)
}

/// The eight king steps from a square.
pub open spec fn spec_king_mask(sq: int) -> u64 {
    jump_bit(sq, -1, -1) | jump_bit(sq, -1, 0) | jump_bit(sq, -1, 1) | jump_bit(sq, 0, -1)
        | jump_bit(sq, 0, 1) | jump_bit(sq, 1, -1) | jump_bit(sq, 1, 0) | jump_bit(sq, 1, 1)
}

/// Walk outward from file `x`, rank `y` in direction (`dx`, `dy`),
/// collecting squares until the edge or a blocker (blocker included).
pub open spec fn spec_dir_ray(x: int, y: int, dx: int, dy: int, occ: u64, fuel: nat) -> u64
    decreases fuel,
{
    if fuel == 0 {
        0
    } else {
        let nx = x + dx;
        let ny = y + dy;
        if nx < 0 || nx >= 8 || ny < 0 || ny >= 8 {
            0
        } else {
            let b = 1u64 << ((ny * 8 + nx) as u64);
            if occ & b != 0 {
                b
            } else {
                b | spec_dir_ray(nx, ny, dx, dy, occ, (fuel - 1) as nat)
            }
        }
    }
}

pub open spec fn spec_dir_attack(sq: int, dx: int, dy: int, occ: u64) -> u64 {
    spec_dir_ray(sq % 8, sq / 8, dx, dy, occ, 8)
}

/// The four diagonal rays of a bishop.
pub open spec fn spec_bishop_ray(sq: int, occ: u64) -> u64 {
    spec_dir_attack(sq, -1, -1, occ) | spec_dir_attack(sq, 1, 1, occ) | spec_dir_attack(
        sq,
        1,
        -1,
        occ,
    ) | spec_dir_attack(sq, -1, 1, occ)
}

/// The four orthogonal rays of a rook.
pub open spec fn spec_rook_ray(sq: int, occ: u64) -> u64 {
    spec_dir_attack(sq, 0, -1, occ) | spec_dir_attack(sq, 0, 1, occ) | spec_dir_attack(
        sq,
        -1,
        0,
        occ,
    ) | spec_dir_attack(sq, 1, 0, occ)
}

/// Walk outward collecting inner-ray squares: stop before the edge in
/// each moving direction, so the outermost square of a ray is left out.
pub open spec fn spec_mask_walk(x: int, y: int, dx: int, dy: int, fuel: nat) -> u64
    decreases fuel,
{
    if fuel == 0 {
        0
    } else {
        let ok = (if dx > 0 {
            x < 7
        } else if dx < 0 {
            x >= 1
        } else {
            true
        }) && (if dy > 0 {
            y < 7
        } else if dy < 0 {
            y >= 1
        } else {
            true
        });
        if !ok {
            0
        } else {
            (1u64 << ((y * 8 + x) as u64)) | spec_mask_walk(x + dx, y + dy, dx, dy, (fuel - 1) as nat)
        }
    }
}

/// The bishop's inner-ray mask: its diagonals, edges excluded.
pub open spec fn spec_bishop_inner_mask(sq: int) -> u64 {
    let f = sq % 8;
    let r = sq / 8;
    spec_mask_walk(f + 1, r + 1, 1, 1, 8) | spec_mask_walk(f - 1, r - 1, -1, -1, 8)
        | spec_mask_walk(f + 1, r - 1, 1, -1, 8) | spec_mask_walk(f - 1, r + 1, -1, 1, 8)
}

/// The rook's inner-ray mask: its rank and file, edges excluded.
pub open spec fn spec_rook_inner_mask(sq: int) -> u64 {
    let f = sq % 8;
    let r = sq / 8;
    spec_mask_walk(f + 1, r, 1, 0, 8) | spec_mask_walk(f - 1, r, -1, 0, 8) | spec_mask_walk(
        f,
        r + 1,
        0,
        1,
        8,
    ) | spec_mask_walk(f, r - 1, 0, -1, 8)
}

/// The lowest set bit of a non-zero word.
pub open spec fn spec_low_bit(mask: u64) -> u64 {
    1u64 << (u64_trailing_zeros(mask) as u64)
}

/// The occupancy subset of `mask` whose member squares are chosen by the
/// bits of `index`, lowest mask bit first.
pub open spec fn spec_occ_of(index: u64, mask: u64, fuel: nat) -> u64
    decreases fuel,
{
    if fuel == 0 || mask == 0 {
        0
    } else {
        let rest = spec_occ_of(index >> 1, mask & !spec_low_bit(mask), (fuel - 1) as nat);
        if index & 1 == 1 {
            spec_low_bit(mask) | rest
        } else {
            rest
        }
    }
}

/// The index whose `spec_occ_of` image is the subset `s` of `mask`.
pub open spec fn spec_compress(s: u64, mask: u64, fuel: nat) -> u64
    decreases fuel,
{
    if fuel == 0 || mask == 0 {
        0
    } else {
        (if s & spec_low_bit(mask) != 0 {
            1u64
        } else {
            0
        }) | (spec_compress(s & !spec_low_bit(mask), mask & !spec_low_bit(mask), (fuel - 1) as nat)
            << 1)
    }
}

/// What is left of `mask` after peeling `fuel` low bits.
pub open spec fn spec_peel(mask: u64, fuel: nat) -> u64
    decreases fuel,
{
    if fuel == 0 {
        mask
    } else if mask == 0 {
        0
    } else {
        spec_peel(mask & !spec_low_bit(mask), (fuel - 1) as nat)
    }
}

/// A mask of at most twelve bits: twelve peels empty it.
pub open spec fn spec_small_mask(mask: u64) -> bool {
    spec_peel(mask, 12) == 0
}

/// Multiplication modulo two to the 64.
pub open spec fn spec_mul_wrap(a: u64, b: u64) -> u64 {
    ((a as nat * b as nat) % 0x1_0000_0000_0000_0000) as u64
}

/// The magic hash of an occupancy subset.
pub open spec fn spec_magic_key(magic: u64, occupancy: u64, shift: u32) -> u64 {
    spec_mul_wrap(occupancy, magic) >> ((64 - shift) as u64)
}

/// Whichever of the two sliding rays a table stands for.
pub open spec fn spec_slider_ray(is_rook: bool, sq: int, occ: u64) -> u64 {
    if is_rook {
        spec_rook_ray(sq, occ)
    } else {
        spec_bishop_ray(sq, occ)
    }
}

/// Every subset of `mask` is the image of its compressed index, and the
/// compressed index stays below two to the fuel.
pub proof fn lemma_compress_inverts(s: u64, mask: u64, fuel: u32)
    requires
        s & !mask == 0,
        spec_peel(mask, fuel as nat) == 0,
        fuel <= 12,
    ensures
        spec_occ_of(spec_compress(s, mask, fuel as nat), mask, fuel as nat) == s,
        spec_compress(s, mask, fuel as nat) < (1u64 << (fuel as u64)),
    decreases fuel,
{
    if fuel == 0 {
        assert(mask == 0);
        assert(s & !0u64 == s && 0u64 < (1u64 << 0u64)) by (bit_vector);
    } else if mask == 0 {
        let f = fuel;
        assert(s & !0u64 == s) by (bit_vector);
        assert(f <= 12 ==> 0u64 < (1u64 << (f as u64))) by (bit_vector);
    } else {
        axiom_u64_trailing_zeros(mask);
        let t = u64_trailing_zeros(mask) as u64;
        let low = spec_low_bit(mask);
        let s1 = s & !low;
        let m1 = mask & !low;
        assert((s & !mask == 0 && t < 64) ==> ((s & !(1u64 << t)) & !(mask & !(1u64 << t))) == 0)
            by (bit_vector);
        lemma_compress_inverts(s1, m1, (fuel - 1) as u32);
        let i1 = spec_compress(s1, m1, (fuel - 1) as nat);
        let b: u64 = if s & low != 0 {
            1u64
        } else {
            0
        };
        let i = b | (i1 << 1);
        assert(i == spec_compress(s, mask, fuel as nat));
        let f = fuel;
        assert((i1 < (1u64 << (((f - 1) as u32) as u64)) && 1 <= f <= 12 && (b == 0 || b == 1))
            ==> ((b | (i1 << 1)) & 1 == b && (b | (i1 << 1)) >> 1 == i1 && (b | (i1 << 1)) < (1u64
            << (f as u64)))) by (bit_vector);
        assert(spec_occ_of(i, mask, fuel as nat) == (if i & 1 == 1 {
            low | spec_occ_of(i1, m1, (fuel - 1) as nat)
        } else {
            spec_occ_of(i1, m1, (fuel - 1) as nat)
        }));
        assert((s & !mask == 0 && t < 64 && (mask >> t) & 1 == 1) ==> (((s & (1u64 << t)) != 0 ==> (
        (1u64 << t) | (s & !(1u64 << t))) == s) && ((s & (1u64 << t)) == 0 ==> (s & !(1u64 << t))
            == s))) by (bit_vector);
    }
}

/// Compute the knight or king jump bit in executable code.
fn jump_mask(sq: usize, dr: i32, df: i32) -> (r: u64)
    requires
        sq < 64,
        -2 <= dr <= 2,
        -2 <= df <= 2,
    ensures
        r == jump_bit(sq as int, dr as int, df as int),
{
    let r0 = (sq / 8) as i32 + dr;
    let f0 = (sq % 8) as i32 + df;
    if 0 <= r0 && r0 < 8 && 0 <= f0 && f0 < 8 {
        1u64 << ((r0 * 8 + f0) as u64)
    } else {
        0
    }
}

/// The 64-entry knight jump table.
pub fn generate_knight_attacks() -> (r: Vec<u64>)
    ensures
        r.len() == 64,
        forall|sq: int| 0 <= sq < 64 ==> r[sq] == spec_knight_mask(sq),
{
    let mut v: Vec<u64> = Vec::new();
    let mut sq: usize = 0;
    while sq < 64
        invariant
            sq <= 64,
            v.len() == sq,
            forall|j: int| 0 <= j < sq ==> v[j] == spec_knight_mask(j),
        decreases 64 - sq,
    {
        let m = jump_mask(sq, -2, -1) | jump_mask(sq, -2, 1) | jump_mask(sq, -1, -2) | jump_mask(
            sq,
            -1,
            2,
        ) | jump_mask(sq, 1, -2) | jump_mask(sq, 1, 2) | jump_mask(sq, 2, -1) | jump_mask(sq, 2, 1);
        v.push(m);
        sq = sq + 1;
    }
    v
}

/// The 64-entry king step table.
pub fn generate_king_attacks() -> (r: Vec<u64>)
    ensures
        r.len() == 64,
        forall|sq: int| 0 <= sq < 64 ==> r[sq] == spec_king_mask(sq),
{
    let mut v: Vec<u64> = Vec::new();
    let mut sq: usize = 0;
    while sq < 64
        invariant
            sq <= 64,
            v.len() == sq,
            forall|j: int| 0 <= j < sq ==> v[j] == spec_king_mask(j),
        decreases 64 - sq,
    {
        let m = jump_mask(sq, -1, -1) | jump_mask(sq, -1, 0) | jump_mask(sq, -1, 1) | jump_mask(
            sq,
            0,
            -1,
        ) | jump_mask(sq, 0, 1) | jump_mask(sq, 1, -1) | jump_mask(sq, 1, 0) | jump_mask(sq, 1, 1);
        v.push(m);
        sq = sq + 1;
    }
    v
}

fn dir_walk(x: i32, y: i32, dx: i32, dy: i32, occupancy: u64, fuel: u32) -> (r: u64)
    requires
        0 <= x < 8,
        0 <= y < 8,
        -1 <= dx <= 1,
        -1 <= dy <= 1,
    ensures
        r == spec_dir_ray(x as int, y as int, dx as int, dy as int, occupancy, fuel as nat),
    decreases fuel,
{
    if fuel == 0 {
        0
    } else {
        let nx = x + dx;
        let ny = y + dy;
        if nx < 0 || nx >= 8 || ny < 0 || ny >= 8 {
            0
        } else {
            let b = 1u64 << ((ny * 8 + nx) as u64);
            if occupancy & b != 0 {
                b
            } else {
                b | dir_walk(nx, ny, dx, dy, occupancy, fuel - 1)
            }
        }
    }
}

/// The ray from `square` in one direction, stopping at (and including)
/// the first blocker in `occupancy`.
pub fn directional_attack(square: usize, xdir: i32, ydir: i32, occupancy: u64) -> (r: u64)
    requires
        square < 64,
        -1 <= xdir <= 1,
        -1 <= ydir <= 1,
    ensures
        r == spec_dir_attack(square as int, xdir as int, ydir as int, occupancy),
{
    dir_walk((square % 8) as i32, (square / 8) as i32, xdir, ydir, occupancy, 8)
}

/// The full bishop ray attack from scratch.
pub fn generate_bishop_attack(square: usize, occupancy: u64) -> (r: u64)
    requires
        square < 64,
    ensures
        r == spec_bishop_ray(square as int, occupancy),
{
    directional_attack(square, -1, -1, occupancy) | directional_attack(square, 1, 1, occupancy)
        | directional_attack(square, 1, -1, occupancy) | directional_attack(
        square,
        -1,
        1,
        occupancy,
    )
}

/// The full rook ray attack from scratch.
pub fn generate_rook_attack(square: usize, occupancy: u64) -> (r: u64)
    requires
        square < 64,
    ensures
        r == spec_rook_ray(square as int, occupancy),
{
    directional_attack(square, 0, -1, occupancy) | directional_attack(square, 0, 1, occupancy)
        | directional_attack(square, -1, 0, occupancy) | directional_attack(square, 1, 0, occupancy)
}

/// One inner-ray walk in executable form.
fn mask_walk(x: i32, y: i32, dx: i32, dy: i32, fuel: u32) -> (r: u64)
    requires
        -1 <= x <= 8,
        -1 <= y <= 8,
        -1 <= dx <= 1,
        -1 <= dy <= 1,
        dx > 0 ==> x >= 0,
        dx < 0 ==> x <= 7,
        dy > 0 ==> y >= 0,
        dy < 0 ==> y <= 7,
        dx == 0 ==> 0 <= x < 8,
        dy == 0 ==> 0 <= y < 8,
    ensures
        r == spec_mask_walk(x as int, y as int, dx as int, dy as int, fuel as nat),
    decreases fuel,
{
    if fuel == 0 {
        0
    } else {
        let ok = (if dx > 0 {
            x < 7
        } else if dx < 0 {
            x >= 1
        } else {
            true
        }) && (if dy > 0 {
            y < 7
        } else if dy < 0 {
            y >= 1
        } else {
            true
        });
        if !ok {
            0
        } else {
            (1u64 << ((y * 8 + x) as u64)) | mask_walk(x + dx, y + dy, dx, dy, fuel - 1)
        }
    }
}

/// Inner-ray mask of a bishop: the diagonals, edges excluded.
pub fn generate_bishop_masks() -> (r: Vec<u64>)
    ensures
        r.len() == 64,
        forall|sq: int| 0 <= sq < 64 ==> #[trigger] r[sq] == spec_bishop_inner_mask(sq),
{
    let mut v: Vec<u64> = Vec::new();
    let mut sq: usize = 0;
    while sq < 64
        invariant
            v.len() == sq,
            sq <= 64,
            forall|j: int| 0 <= j < sq ==> #[trigger] v[j] == spec_bishop_inner_mask(j),
        decreases 64 - sq,
    {
        let tf = (sq % 8) as i32;
        let tr = (sq / 8) as i32;
        let mask = mask_walk(tf + 1, tr + 1, 1, 1, 8) | mask_walk(tf - 1, tr - 1, -1, -1, 8)
            | mask_walk(tf + 1, tr - 1, 1, -1, 8) | mask_walk(tf - 1, tr + 1, -1, 1, 8);
        v.push(mask);
        sq = sq + 1;
    }
    v
}

/// Inner-ray mask of a rook: its rank and file, edges excluded.
pub fn generate_rook_masks() -> (r: Vec<u64>)
    ensures
        r.len() == 64,
        forall|sq: int| 0 <= sq < 64 ==> #[trigger] r[sq] == spec_rook_inner_mask(sq),
{
    let mut v: Vec<u64> = Vec::new();
    let mut sq: usize = 0;
    while sq < 64
        invariant
            v.len() == sq,
            sq <= 64,
            forall|j: int| 0 <= j < sq ==> #[trigger] v[j] == spec_rook_inner_mask(j),
        decreases 64 - sq,
    {
        let tf = (sq % 8) as i32;
        let tr = (sq / 8) as i32;
        let mask = mask_walk(tf + 1, tr, 1, 0, 8) | mask_walk(tf - 1, tr, -1, 0, 8) | mask_walk(
            tf,
            tr + 1,
            0,
            1,
            8,
        ) | mask_walk(tf, tr - 1, 0, -1, 8);
        v.push(mask);
        sq = sq + 1;
    }
    v
}

fn occ_rec(index: u64, mask: u64, fuel: u32) -> (r: u64)
    ensures
        r == spec_occ_of(index, mask, fuel as nat),
    decreases fuel,
{
    if fuel == 0 || mask == 0 {
        0
    } else {
        proof {
            axiom_u64_trailing_zeros(mask);
        }
        let tz = mask.trailing_zeros();
        let cur = 1u64 << tz;
        assert(cur == spec_low_bit(mask));
        let rest = occ_rec(index >> 1, mask & !cur, fuel - 1);
        if index & 1 == 1 {
            cur | rest
        } else {
            rest
        }
    }
}

/// The occupancy subset of `mask` selected by the bits of `index`.
pub fn get_occupancy(index: u32, mask: u64) -> (r: u64)
    ensures
        r == spec_occ_of(index as u64, mask, 12),
{
    occ_rec(index as u64, mask, 12)
}

fn peel_exec(mask: u64, fuel: u32) -> (r: u64)
    ensures
        r == spec_peel(mask, fuel as nat),
    decreases fuel,
{
    if fuel == 0 {
        mask
    } else if mask == 0 {
        0
    } else {
        proof {
            axiom_u64_trailing_zeros(mask);
        }
        let tz = mask.trailing_zeros();
        peel_exec(mask & !(1u64 << tz), fuel - 1)
    }
}

/// Count the set bits of a word.
fn popcount(x: u64) -> (r: u32)
    ensures
        r <= 64,
{
    let mut c: u32 = 0;
    let mut i: u32 = 0;
    while i < 64
        invariant
            i <= 64,
            c <= i,
        decreases 64 - i,
    {
        if (x >> i) & 1 == 1 {
            c = c + 1;
        }
        i = i + 1;
    }
    c
}

/// The magic hash of an occupancy: wrapping multiply, then keep the top
/// `shift` bits.
pub fn magic_key(magic: u64, occupancy: u64, shift: u32) -> (r: usize)
    requires
        1 <= shift <= 12,
    ensures
        r == spec_magic_key(magic, occupancy, shift),
        r < 4096,
{
    let m = occupancy.wrapping_mul(magic);
    proof {
        assert(m == spec_mul_wrap(occupancy, magic));
    }
    let k = m >> ((64 - shift) as u64);
    proof {
        let sh = (64 - shift) as u64;
        assert((sh >= 52 && sh < 64) ==> (m >> sh) < 4096) by (bit_vector);
    }
    k as usize
}

/// Build one sliding attack table: for every subset of every square's
/// mask, store the ray attack at the subset's magic index.
fn build_slider_table(masks: &Vec<u64>, magics: &Vec<u64>, shifts: &Vec<u32>, is_rook: bool) -> (r:
    Vec<Vec<u64>>)
    requires
        masks.len() == 64,
        magics.len() == 64,
        shifts.len() == 64,
        forall|sq: int| 0 <= sq < 64 ==> 1 <= #[trigger] shifts[sq] <= 12,
    ensures
        r.len() == 64,
        forall|sq: int| 0 <= sq < 64 ==> #[trigger] r[sq].len() == 4096,
{
    let mut table: Vec<Vec<u64>> = Vec::new();
    let mut sq: usize = 0;
    while sq < 64
        invariant
            sq <= 64,
            table.len() == sq,
            masks.len() == 64,
            magics.len() == 64,
            shifts.len() == 64,
            forall|j: int| 0 <= j < 64 ==> 1 <= #[trigger] shifts[j] <= 12,
            forall|j: int| 0 <= j < sq ==> #[trigger] table[j].len() == 4096,
        decreases 64 - sq,
    {
        let mut row: Vec<u64> = Vec::new();
        let mut z: usize = 0;
        while z < 4096
            invariant
                z <= 4096,
                row.len() == z,
            decreases 4096 - z,
        {
            row.push(0);
            z = z + 1;
        }
        let mask = masks[sq];
        let magic = magics[sq];
        let shift = shifts[sq];
        let mut i: u32 = 0;
        while i < 4096
            invariant
                i <= 4096,
                row.len() == 4096,
                sq < 64,
                masks.len() == 64,
                magics.len() == 64,
                shifts.len() == 64,
                mask == masks[sq as int],
                magic == magics[sq as int],
                shift == shifts[sq as int],
                1 <= shift <= 12,
            decreases 4096 - i,
        {
            let occ = get_occupancy(i, mask);
            let key = magic_key(magic, occ, shift);
            let attack = if is_rook {
                generate_rook_attack(sq, occ)
            } else {
                generate_bishop_attack(sq, occ)
            };
            row[key] = attack;
            i = i + 1;
        }
        table.push(row);
        sq = sq + 1;
    }
    table
}

/// Check a built table against the ray computation for every square and
/// every occupancy subset. A `true` answer carries the full relation.
fn check_slider_table(
    masks: &Vec<u64>,
    magics: &Vec<u64>,
    shifts: &Vec<u32>,
    table: &Vec<Vec<u64>>,
    is_rook: bool,
) -> (r: bool)
    requires
        masks.len() == 64,
        magics.len() == 64,
        shifts.len() == 64,
        table.len() == 64,
        forall|sq: int| 0 <= sq < 64 ==> 1 <= #[trigger] shifts[sq] <= 12,
        forall|sq: int| 0 <= sq < 64 ==> #[trigger] table[sq].len() == 4096,
    ensures
        r ==> forall|sq: int, i: u64|
            0 <= sq < 64 && i < 4096 ==> #[trigger] table[sq][spec_magic_key(
                magics[sq],
                spec_occ_of(i, masks[sq], 12),
                shifts[sq],
            ) as int] == spec_slider_ray(is_rook, sq, spec_occ_of(i, masks[sq], 12)),
{
    let mut sq: usize = 0;
    while sq < 64
        invariant
            sq <= 64,
            masks.len() == 64,
            magics.len() == 64,
            shifts.len() == 64,
            table.len() == 64,
            forall|j: int| 0 <= j < 64 ==> 1 <= #[trigger] shifts[j] <= 12,
            forall|j: int| 0 <= j < 64 ==> #[trigger] table[j].len() == 4096,
            forall|j: int, i: u64|
                0 <= j < sq && i < 4096 ==> #[trigger] table[j][spec_magic_key(
                    magics[j],
                    spec_occ_of(i, masks[j], 12),
                    shifts[j],
                ) as int] == spec_slider_ray(is_rook, j, spec_occ_of(i, masks[j], 12)),
        decreases 64 - sq,
    {
        let mut i: u32 = 0;
        while i < 4096
            invariant
                i <= 4096,
                sq < 64,
                masks.len() == 64,
                magics.len() == 64,
                shifts.len() == 64,
                table.len() == 64,
                forall|j: int| 0 <= j < 64 ==> 1 <= #[trigger] shifts[j] <= 12,
                forall|j: int| 0 <= j < 64 ==> #[trigger] table[j].len() == 4096,
                forall|k: u64|
                    k < i ==> #[trigger] table[sq as int][spec_magic_key(
                        magics[sq as int],
                        spec_occ_of(k, masks[sq as int], 12),
                        shifts[sq as int],
                    ) as int] == spec_slider_ray(
                        is_rook,
                        sq as int,
                        spec_occ_of(k, masks[sq as int], 12),
                    ),
            decreases 4096 - i,
        {
            let occ = get_occupancy(i, masks[sq]);
            let key = magic_key(magics[sq], occ, shifts[sq]);
            let expected = if is_rook {
                generate_rook_attack(sq, occ)
            } else {
                generate_bishop_attack(sq, occ)
            };
            let row = &table[sq];
            assert(row.len() == 4096);
            if row[key] != expected {
                return false;
            }
            i = i + 1;
        }
        sq = sq + 1;
    }
    true
}

/// All the attack tables the engine reads during move generation.
pub struct AttackLookup {
    pub knight: Vec<u64>,
    pub king: Vec<u64>,
    pub bishop_masks: Vec<u64>,
    pub bishop_magics: Vec<u64>,
    pub bishop_shifts: Vec<u32>,
    pub bishop_table: Vec<Vec<u64>>,
    pub rook_masks: Vec<u64>,
    pub rook_magics: Vec<u64>,
    pub rook_shifts: Vec<u32>,
    pub rook_table: Vec<Vec<u64>>,
}

impl AttackLookup {
    /// One slider family checks out: sizes, shift ranges, small masks,
    /// and the table entry of every mask subset equals its ray attack.
    pub open spec fn wf_slider(
        masks: Seq<u64>,
        magics: Seq<u64>,
        shifts: Seq<u32>,
        table: Seq<Vec<u64>>,
        is_rook: bool,
    ) -> bool {
        &&& masks.len() == 64
        &&& magics.len() == 64
        &&& shifts.len() == 64
        &&& table.len() == 64
        &&& forall|sq: int| 0 <= sq < 64 ==> 1 <= #[trigger] shifts[sq] <= 12
        &&& forall|sq: int| 0 <= sq < 64 ==> spec_small_mask(#[trigger] masks[sq])
        &&& forall|sq: int|
            0 <= sq < 64 ==> #[trigger] masks[sq] == if is_rook {
                spec_rook_inner_mask(sq)
            } else {
                spec_bishop_inner_mask(sq)
            }
        &&& forall|sq: int| 0 <= sq < 64 ==> #[trigger] table[sq].len() == 4096
        &&& forall|sq: int, i: u64|
            0 <= sq < 64 && i < 4096 ==> #[trigger] table[sq][spec_magic_key(
                magics[sq],
                spec_occ_of(i, masks[sq], 12),
                shifts[sq],
            ) as int] == spec_slider_ray(is_rook, sq, spec_occ_of(i, masks[sq], 12))
    }

    pub open spec fn wf(self) -> bool {
        &&& self.knight.len() == 64
        &&& self.king.len() == 64
        &&& forall|sq: int| 0 <= sq < 64 ==> self.knight[sq] == spec_knight_mask(sq)
        &&& forall|sq: int| 0 <= sq < 64 ==> self.king[sq] == spec_king_mask(sq)
        &&& Self::wf_slider(
            self.bishop_masks@,
            self.bishop_magics@,
            self.bishop_shifts@,
            self.bishop_table@,
            false,
        )
        &&& Self::wf_slider(
            self.rook_masks@,
            self.rook_magics@,
            self.rook_shifts@,
            self.rook_table@,
            true,
        )
    }

    /// Build every table and run the boot self-test. `None` means a magic
    /// constant failed the self-test or a mask was malformed.
    pub fn new() -> (r: Option<AttackLookup>)
        ensures
            r is Some ==> r.unwrap().wf(),
    {
        let knight = generate_knight_attacks();
        let king = generate_king_attacks();

        let bishop_masks = generate_bishop_masks();
        let rook_masks = generate_rook_masks();
        let bishop_magics = bishop_magic_numbers();
        let rook_magics = rook_magic_numbers();

        let bishop_shifts = match mask_shifts(&bishop_masks) {
            Some(s) => s,
            None => {
                return None;
            },
        };
        let rook_shifts = match mask_shifts(&rook_masks) {
            Some(s) => s,
            None => {
                return None;
            },
        };

        let bishop_table = build_slider_table(&bishop_masks, &bishop_magics, &bishop_shifts, false);
        let rook_table = build_slider_table(&rook_masks, &rook_magics, &rook_shifts, true);

        if !check_slider_table(&bishop_masks, &bishop_magics, &bishop_shifts, &bishop_table, false)
        {
            return None;
        }
        if !check_slider_table(&rook_masks, &rook_magics, &rook_shifts, &rook_table, true) {
            return None;
        }

        Some(
            AttackLookup {
                knight,
                king,
                bishop_masks,
                bishop_magics,
                bishop_shifts,
                bishop_table,
                rook_masks,
                rook_magics,
                rook_shifts,
                rook_table,
            },
        )
    }
}

/// Shift of each mask: its bit count, refused unless between 1 and 12,
/// with the small-mask check the subset enumeration relies on.
fn mask_shifts(masks: &Vec<u64>) -> (r: Option<Vec<u32>>)
    requires
        masks.len() == 64,
    ensures
        r is Some ==> r.unwrap().len() == 64 && (forall|sq: int|
            0 <= sq < 64 ==> 1 <= #[trigger] r.unwrap()[sq] <= 12) && (forall|sq: int|
            0 <= sq < 64 ==> spec_small_mask(#[trigger] masks[sq])),
{
    let mut shifts: Vec<u32> = Vec::new();
    let mut sq: usize = 0;
    while sq < 64
        invariant
            sq <= 64,
            masks.len() == 64,
            shifts.len() == sq,
            forall|j: int| 0 <= j < sq ==> 1 <= #[trigger] shifts[j] <= 12,
            forall|j: int| 0 <= j < sq ==> spec_small_mask(#[trigger] masks[j]),
        decreases 64 - sq,
    {
        let n = popcount(masks[sq]);
        if n < 1 || n > 12 {
            return None;
        }
        if peel_exec(masks[sq], 12) != 0 {
            return None;
        }
        shifts.push(n);
        sq = sq + 1;
    }
    Some(shifts)
}

/// The sliding attack set of a bishop: equal to the straight ray walk
/// over the blockers inside the bishop's mask.
pub fn bishop_attacks(tables: &AttackLookup, square: usize, occupancy: u64) -> (r: u64)
    requires
        tables.wf(),
        square < 64,
    ensures
        r == spec_bishop_ray(square as int, occupancy & spec_bishop_inner_mask(square as int)),
{
    let mask = tables.bishop_masks[square];
    let s = occupancy & mask;
    let key = magic_key(tables.bishop_magics[square], s, tables.bishop_shifts[square]);
    proof {
        assert((occupancy & mask) & !mask == 0) by (bit_vector);
        lemma_compress_inverts(s, mask, 12);
        let i = spec_compress(s, mask, 12);
        assert(1u64 << 12u64 == 4096) by (bit_vector);
        assert(tables.bishop_table@[square as int][spec_magic_key(
            tables.bishop_magics[square as int],
            spec_occ_of(i, tables.bishop_masks[square as int], 12),
            tables.bishop_shifts[square as int],
        ) as int] == spec_slider_ray(
            false,
            square as int,
            spec_occ_of(i, tables.bishop_masks[square as int], 12),
        ));
    }
    let row = &tables.bishop_table[square];
    assert(row.len() == 4096);
    row[key]
}

/// The sliding attack set of a rook: equal to the straight ray walk
/// over the blockers inside the rook's mask.
pub fn rook_attacks(tables: &AttackLookup, square: usize, occupancy: u64) -> (r: u64)
    requires
        tables.wf(),
        square < 64,
    ensures
        r == spec_rook_ray(square as int, occupancy & spec_rook_inner_mask(square as int)),
{
    let mask = tables.rook_masks[square];
    let s = occupancy & mask;
    let key = magic_key(tables.rook_magics[square], s, tables.rook_shifts[square]);
    proof {
        assert((occupancy & mask) & !mask == 0) by (bit_vector);
        lemma_compress_inverts(s, mask, 12);
        let i = spec_compress(s, mask, 12);
        assert(1u64 << 12u64 == 4096) by (bit_vector);
        assert(tables.rook_table@[square as int][spec_magic_key(
            tables.rook_magics[square as int],
            spec_occ_of(i, tables.rook_masks[square as int], 12),
            tables.rook_shifts[square as int],
        ) as int] == spec_slider_ray(
            true,
            square as int,
            spec_occ_of(i, tables.rook_masks[square as int], 12),
        ));
    }
    let row = &tables.rook_table[square];
    assert(row.len() == 4096);
    row[key]
}

/// The fixed bishop magic constants; the boot self-test holds them to the ray walk.
pub fn bishop_magic_numbers() -> (r: Vec<u64>)
    ensures
        r.len() == 64,
{
    let mut v: Vec<u64> = Vec::new();
    v.push(0x81900116082200a0);
    v.push(0x20040102002012);
    v.push(0x410040280200080);
    v.push(0x624404081020000);
    v.push(0x5244042001004080);
    v.push(0x80c41040000294);
    v.push(0x1082021282402210);
    v.push(0x4000834310012004);
    v.push(0xc00840104c0108c0);
    v.push(0x30100a004040);
    v.push(0x5000481489020939);
    v.push(0x840400852408);
    v.push(0xc10211040601889);
    v.push(0x81013008200600);
    v.push(0x4004a02504040);
    v.push(0x11a0042023004);
    v.push(0x42c005020084908);
    v.push(0x880200040c084208);
    v.push(0x1408a210a40100);
    v.push(0x488040882004081);
    v.push(0x180c401a00200);
    v.push(0x1042000108010404);
    v.push(0x20400030c0a3241);
    v.push(0x10000c4108400);
    v.push(0x8008200009021040);
    v.push(0x4100452028804);
    v.push(0xc04440008080090);
    v.push(0x42100401404011a0);
    v.push(0x9010840000802022);
    v.push(0xa004080801018200);
    v.push(0x202d1e0c05080b00);
    v.push(0x10a00030084c0);
    v.push(0xc21206010880800);
    v.push(0x802011000151001);
    v.push(0x100c0a0500220401);
    v.push(0x6069200800090504);
    v.push(0x4440010200010084);
    v.push(0x146080110020040);
    v.push(0xce009e00010800);
    v.push(0x8048020021044500);
    v.push(0x4100c10540483);
    v.push(0x1012030120a00800);
    v.push(0x14209c0048026402);
    v.push(0x4000406031080808);
    v.push(0x80904000040);
    v.push(0x3200210c040d200);
    v.push(0x20c080801004040);
    v.push(0x2020a00300600);
    v.push(0x4c2108081404401c);
    v.push(0x8824406a00012);
    v.push(0x1108842c4100004);
    v.push(0x22000000840c0080);
    v.push(0x80002002048000);
    v.push(0x1484040c08061001);
    v.push(0x8065822040020);
    v.push(0x4082108c00808000);
    v.push(0xa081840088440210);
    v.push(0x81001c208030880);
    v.push(0x4600038401a806);
    v.push(0x8040000080420200);
    v.push(0x82200600a0486);
    v.push(0x800002020820086);
    v.push(0x2e22230404248400);
    v.push(0x114900411002200);
    v
}

/// The fixed rook magic constants; the boot self-test holds them to the ray walk.
pub fn rook_magic_numbers() -> (r: Vec<u64>)
    ensures
        r.len() == 64,
{
    let mut v: Vec<u64> = Vec::new();
    v.push(0x408000c004322080);
    v.push(0x2040002001485001);
    v.push(0x100090012402000);
    v.push(0x880245000080080);
    v.push(0x200041002008820);
    v.push(0x100061c00150048);
    v.push(0x80060009000080);
    v.push(0x6000200810ac024);
    v.push(0x221800020804000);
    v.push(0x410c04000201000);
    v.push(0x8882801000816008);
    v.push(0x821801000800800);
    v.push(0x2001001008030004);
    v.push(0x1080800a004c00);
    v.push(0x800e00800300);
    v.push(0x6449000220904d00);
    v.push(0x208009814002);
    v.push(0x4590a0020804208);
    v.push(0x8006820020304601);
    v.push(0x40808038003001);
    v.push(0x4200808004020800);
    v.push(0x204008004801600);
    v.push(0x4040a40088093006);
    v.push(0xa20020008419104);
    v.push(0x1041400080046080);
    v.push(0x200820004000d000);
    v.push(0x200211010040a001);
    v.push(0x420200100a20);
    v.push(0x1019040080380080);
    v.push(0x6802000200043048);
    v.push(0x520400218830);
    v.push(0x811008600004104);
    v.push(0xb080400022800280);
    v.push(0x20802000804009);
    v.push(0x600280801000);
    v.push(0x508002880801000);
    v.push(0x10080280800400);
    v.push(0x500cc20080800400);
    v.push(0x4012004526002408);
    v.push(0x11008080c2000421);
    v.push(0x14400080018020);
    v.push(0x2800200150004000);
    v.push(0x10200010008080);
    v.push(0x10010108110020);
    v.push(0x400a021220120008);
    v.push(0x40002a0004008080);
    v.push(0x490011806040010);
    v.push(0x4000840040820001);
    v.push(0x824121020200);
    v.push(0x8060004000847080);
    v.push(0x1008445900200100);
    v.push(0xe402100088048080);
    v.push(0x200440800110100);
    v.push(0xc002011430080600);
    v.push(0x30002004c8100);
    v.push(0xa041000229804100);
    v.push(0x200248000110141);
    v.push(0x888627100400081);
    v.push(0xa0005018422101);
    v.push(0x81000820141001);
    v.push(0xc02000920100482);
    v.push(0x2211002204000801);
    v.push(0x481000284020001);
    v.push(0x40224408102);
    v
}

} // verus!
