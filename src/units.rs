//! Fixed-point unit codec. Physical quantities are held exactly, in
//! thousandths of their unit: angles in millidegrees, lengths in micrometres.
//! On the wire an angle is a signed 16-bit count of hundredths of a degree and
//! a length one of tenths of a millimetre, truncated toward zero; a value too
//! large for 16 bits wraps.

use vstd::prelude::*;

verus! {

/// Hundredths of a degree per wire unit, in millidegrees.
pub const ANGLE_STEP: i32 = 10;

/// Tenths of a millimetre per wire unit, in micrometres.
pub const COORD_STEP: i32 = 100;

/// Division truncated toward zero (as Rust's `/` on signed integers does).
pub open spec fn trunc_div(x: int, d: int) -> int {
    if x >= 0 {
        x / d
    } else {
        -((-x) / d)
    }
}

/// Wire value of a length: `trunc_div(x, d)` wrapped to 16 bits.
pub open spec fn scaled(x: int, d: int) -> i16 {
    trunc_div(x, d) as i16
}

/// A value is representable when its truncated quotient fits in 16 bits.
pub open spec fn representable(x: int, d: int) -> bool {
    i16::MIN <= trunc_div(x, d) <= i16::MAX
}

/// The wire step of pose index `i`: lengths at 0 to 2, angles from 3 on.
pub open spec fn pose_step(i: int) -> int {
    if i < 3 {
        COORD_STEP as int
    } else {
        ANGLE_STEP as int
    }
}

/// The wire form of a pose.
pub open spec fn pose_to_wire(coords: Seq<i32>) -> Seq<i16> {
    Seq::new(coords.len(), |i: int| scaled(coords[i] as int, pose_step(i)))
}

/// The pose that a wire vector stands for.
pub open spec fn wire_to_pose(vals: Seq<i16>) -> Seq<i32> {
    Seq::new(vals.len(), |i: int| (vals[i] * pose_step(i)) as i32)
}

fn truncated_quotient(x: i32, d: i32) -> (r: i64)
    requires
        d > 0,
    ensures
        r == trunc_div(x as int, d as int),
{
    let wide: i64 = x as i64;
    if wide >= 0 {
        let q: u64 = (wide as u64) / (d as u64);
        q as i64
    } else {
        let q: u64 = ((-wide) as u64) / (d as u64);
        -(q as i64)
    }
}

/// Millidegrees to the wire's hundredths of a degree.
pub fn angle_to_int(degree: i32) -> (r: i16)
    ensures
        r == scaled(degree as int, ANGLE_STEP as int),
{
    let q = truncated_quotient(degree, ANGLE_STEP);
    #[verifier::truncate]
    (q as i16)
}

/// Micrometres to the wire's tenths of a millimetre.
pub fn coord_to_int(coord: i32) -> (r: i16)
    ensures
        r == scaled(coord as int, COORD_STEP as int),
{
    let q = truncated_quotient(coord, COORD_STEP);
    #[verifier::truncate]
    (q as i16)
}

/// The wire's hundredths of a degree to millidegrees.
pub fn int_to_angle(val: i16) -> (r: i32)
    ensures
        r == val as int * ANGLE_STEP as int,
{
    val as i32 * ANGLE_STEP
}

/// The wire's tenths of a millimetre to micrometres.
pub fn int_to_coord(val: i16) -> (r: i32)
    ensures
        r == val as int * COORD_STEP as int,
{
    val as i32 * COORD_STEP
}

/// Encodes a pose: lengths at indices 0 to 2, angles from index 3 on.
pub fn coords_to_int_vec(coords: &[i32]) -> (r: Vec<i16>)
    ensures
        r@ == pose_to_wire(coords@),
{
    let mut r: Vec<i16> = Vec::new();
    let mut i: usize = 0;
    while i < coords.len()
        invariant
            i <= coords@.len(),
            r@.len() == i,
            forall|j: int| 0 <= j < i ==> #[trigger] r@[j] == scaled(coords@[j] as int, pose_step(j)),
        decreases coords@.len() - i,
    {
        if i < 3 {
            r.push(coord_to_int(coords[i]));
        } else {
            r.push(angle_to_int(coords[i]));
        }
        i = i + 1;
    }
    assert(r@ =~= pose_to_wire(coords@));
    r
}

/// Decodes a pose: lengths at indices 0 to 2, angles from index 3 on.
pub fn int_vec_to_coords(vals: &[i16]) -> (r: Vec<i32>)
    ensures
        r@ == wire_to_pose(vals@),
{
    let mut r: Vec<i32> = Vec::new();
    let mut i: usize = 0;
    while i < vals.len()
        invariant
            i <= vals@.len(),
            r@.len() == i,
            forall|j: int| 0 <= j < i ==> #[trigger] r@[j] == vals@[j] as int * pose_step(j),
        decreases vals@.len() - i,
    {
        if i < 3 {
            r.push(int_to_coord(vals[i]));
        } else {
            r.push(int_to_angle(vals[i]));
        }
        i = i + 1;
    }
    assert(r@ =~= wire_to_pose(vals@));
    r
}

proof fn lemma_truncation_error(x: int, d: int)
    requires
        d > 0,
    ensures
        x >= 0 ==> 0 <= x - trunc_div(x, d) * d < d,
        x < 0 ==> 0 <= trunc_div(x, d) * d - x < d,
{
    if x >= 0 {
        assert(0 <= x - (x / d) * d < d) by (nonlinear_arith)
            requires
                x >= 0,
                d > 0,
        ;
    } else {
        let y = -x;
        let q = y / d;
        assert(0 <= y - q * d < d && (-q) * d - x == y - q * d) by (nonlinear_arith)
            requires
                y > 0,
                y == -x,
                d > 0,
                q == y / d,
        ;
    }
}

proof fn lemma_trunc_div_of_multiple(v: int, d: int)
    requires
        d > 0,
    ensures
        trunc_div(v * d, d) == v,
{
    if v >= 0 {
        assert(v * d >= 0 && (v * d) / d == v) by (nonlinear_arith)
            requires
                v >= 0,
                d > 0,
        ;
    } else {
        let w = -v;
        assert(-(v * d) == w * d && w * d > 0 && (w * d) / d == w) by (nonlinear_arith)
            requires
                w == -v,
                w > 0,
                d > 0,
        ;
    }
}

/// Decoding an encoded angle gives back the angle to within one hundredth of
/// a degree, rounded toward zero, whenever the wire value does not wrap.
pub proof fn lemma_angle_round_trip(degree: i32)
    requires
        representable(degree as int, ANGLE_STEP as int),
    ensures
        ({
            let back = scaled(degree as int, ANGLE_STEP as int) as int * ANGLE_STEP as int;
            &&& degree >= 0 ==> 0 <= degree - back < ANGLE_STEP
            &&& degree < 0 ==> 0 <= back - degree < ANGLE_STEP
        }),
{
    lemma_truncation_error(degree as int, ANGLE_STEP as int);
}

/// Decoding an encoded length gives back the length to within a tenth of a
/// millimetre, rounded toward zero, whenever the wire value does not wrap.
pub proof fn lemma_coord_round_trip(coord: i32)
    requires
        representable(coord as int, COORD_STEP as int),
    ensures
        ({
            let back = scaled(coord as int, COORD_STEP as int) as int * COORD_STEP as int;
            &&& coord >= 0 ==> 0 <= coord - back < COORD_STEP
            &&& coord < 0 ==> 0 <= back - coord < COORD_STEP
        }),
{
    lemma_truncation_error(coord as int, COORD_STEP as int);
}

/// Encoding a decoded pose gives back exactly the wire values: the two pose
/// conversions use the same per-index scale.
pub proof fn lemma_pose_wire_inverse(vals: Seq<i16>)
    ensures
        pose_to_wire(wire_to_pose(vals)) == vals,
{
    let p = wire_to_pose(vals);
    assert forall|i: int| 0 <= i < vals.len() implies #[trigger] pose_to_wire(p)[i] == vals[i] by {
        let d = pose_step(i);
        assert(-32768 * 100 <= vals[i] * d <= 32767 * 100) by (nonlinear_arith)
            requires
                -32768 <= vals[i] <= 32767,
                d == 10 || d == 100,
        ;
        lemma_trunc_div_of_multiple(vals[i] as int, d);
    }
    assert(pose_to_wire(p) =~= vals);
}

/// Decoding an encoded pose gives back each value to within one wire step of
/// its index, rounded toward zero, whenever no wire value wraps.
pub proof fn lemma_pose_round_trip(coords: Seq<i32>)
    requires
        forall|i: int| 0 <= i < coords.len() ==> representable(#[trigger] coords[i] as int, pose_step(i)),
    ensures
        wire_to_pose(pose_to_wire(coords)).len() == coords.len(),
        forall|i: int| 0 <= i < coords.len() ==> {
            let back = #[trigger] wire_to_pose(pose_to_wire(coords))[i];
            &&& coords[i] >= 0 ==> 0 <= coords[i] - back < pose_step(i)
            &&& coords[i] < 0 ==> 0 <= back - coords[i] < pose_step(i)
        },
{
    let w = pose_to_wire(coords);
    assert forall|i: int| 0 <= i < coords.len() implies {
        let back = #[trigger] wire_to_pose(w)[i];
        &&& coords[i] >= 0 ==> 0 <= coords[i] - back < pose_step(i)
        &&& coords[i] < 0 ==> 0 <= back - coords[i] < pose_step(i)
    } by {
        let d = pose_step(i);
        lemma_truncation_error(coords[i] as int, d);
        assert(-32768 * 100 <= w[i] * d <= 32767 * 100) by (nonlinear_arith)
            requires
                -32768 <= w[i] <= 32767,
                d == 10 || d == 100,
        ;
    }
}

} // verus!
