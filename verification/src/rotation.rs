//! Signed permutation matrices packed into one byte, and their algebra.
//!
//! Bits 0-1 of the byte hold the column of the non-zero entry of row 0,
//! bits 2-3 that of row 1; the column of row 2 is the one that is left.
//! Bits 4, 5 and 6 are set where the entry of row 0, 1 and 2 is negative.

use vstd::prelude::*;
use vstd::string::*;
use crate::error::FormatError;

verus! {

/// The column that a rotation byte gives to `row` (0, 1 or 2).
pub open spec fn byte_col(b: u8, row: int) -> int {
    if row == 0 {
        b as int % 4
    } else if row == 1 {
        (b as int / 4) % 4
    } else {
        3 - b as int % 4 - (b as int / 4) % 4
    }
}

/// Whether a rotation byte makes the entry of `row` (0, 1 or 2) negative.
pub open spec fn byte_neg(b: u8, row: int) -> bool {
    if row == 0 {
        (b as int / 16) % 2 == 1
    } else if row == 1 {
        (b as int / 32) % 2 == 1
    } else {
        (b as int / 64) % 2 == 1
    }
}

/// A byte encodes a rotation when its two stored columns differ and neither
/// is 3.
pub open spec fn valid_rotation_byte(b: u8) -> bool {
    &&& byte_col(b, 0) != byte_col(b, 1)
    &&& byte_col(b, 0) != 3
    &&& byte_col(b, 1) != 3
}

/// The byte that holds the given columns of rows 0 and 1, the given sign
/// bits of the three rows, and the given bit 7.
pub open spec fn pack_byte(
    col_0: int,
    col_1: int,
    neg_0: bool,
    neg_1: bool,
    neg_2: bool,
    unused: int,
) -> int {
    col_0 + 4 * col_1 + 16 * (if neg_0 { 1int } else { 0 }) + 32 * (if neg_1 { 1int } else { 0 })
        + 64 * (if neg_2 { 1int } else { 0 }) + 128 * unused
}

/// The byte of the product of two rotations: row `i` of the product takes
/// its column from the row of `rhs` that `lhs` points to, and its sign is
/// negative when exactly one of the two entries is. Bit 7, which encodes
/// nothing, is that of `lhs`.
pub open spec fn compose_bytes(lhs: u8, rhs: u8) -> int {
    pack_byte(
        byte_col(rhs, byte_col(lhs, 0)),
        byte_col(rhs, byte_col(lhs, 1)),
        byte_neg(lhs, 0) != byte_neg(rhs, byte_col(lhs, 0)),
        byte_neg(lhs, 1) != byte_neg(rhs, byte_col(lhs, 1)),
        byte_neg(lhs, 2) != byte_neg(rhs, byte_col(lhs, 2)),
        lhs as int / 128,
    )
}

/// A packed byte gives back what was packed into it.
pub proof fn lemma_pack_byte(
    col_0: int,
    col_1: int,
    neg_0: bool,
    neg_1: bool,
    neg_2: bool,
    unused: int,
)
    requires
        0 <= col_0 < 4,
        0 <= col_1 < 4,
        0 <= unused < 2,
    ensures
        ({
            let packed = pack_byte(col_0, col_1, neg_0, neg_1, neg_2, unused);
            &&& 0 <= packed < 256
            &&& byte_col(packed as u8, 0) == col_0
            &&& byte_col(packed as u8, 1) == col_1
            &&& byte_col(packed as u8, 2) == 3 - col_0 - col_1
            &&& byte_neg(packed as u8, 0) == neg_0
            &&& byte_neg(packed as u8, 1) == neg_1
            &&& byte_neg(packed as u8, 2) == neg_2
            &&& packed / 128 == unused
        }),
{
}

/// The component of a vector at `col` (0, 1 or 2).
pub open spec fn component(v: (int, int, int), col: int) -> int {
    if col == 0 {
        v.0
    } else if col == 1 {
        v.1
    } else {
        v.2
    }
}

/// The component at `row` of the product of the matrix of a rotation byte
/// with a vector: the component of the vector that the row points to, with
/// the sign of the row.
pub open spec fn byte_apply_row(b: u8, v: (int, int, int), row: int) -> int {
    if byte_neg(b, row) {
        -component(v, byte_col(b, row))
    } else {
        component(v, byte_col(b, row))
    }
}

/// The product of the matrix of a rotation byte with a vector.
pub open spec fn byte_apply(b: u8, v: (int, int, int)) -> (int, int, int) {
    (byte_apply_row(b, v, 0), byte_apply_row(b, v, 1), byte_apply_row(b, v, 2))
}

/// Whether the permutation of a rotation byte is one of the three even ones:
/// rows 0 and 1 point to columns (0, 1), (1, 2) or (2, 0).
pub open spec fn byte_even(b: u8) -> bool {
    byte_col(b, 1) == (byte_col(b, 0) + 1) % 3
}

/// The number of rows that a rotation byte makes negative.
pub open spec fn byte_neg_count(b: u8) -> int {
    (if byte_neg(b, 0) { 1int } else { 0 }) + (if byte_neg(b, 1) { 1int } else { 0 }) + (if byte_neg(
        b,
        2,
    ) { 1int } else { 0 })
}

/// The position, in the four quaternions of a permutation, of the one that
/// belongs to a pattern of signs. `flip` holds the sign bits of rows 0, 1 and
/// 2 as a number below 8.
pub open spec fn quat_slot(even: bool, flip: int) -> int {
    let slot: int = if flip == 0 || flip == 7 {
        0
    } else if flip == 1 || flip == 6 {
        3
    } else if flip == 2 || flip == 5 {
        2
    } else {
        1
    };
    if even {
        slot
    } else {
        3 - slot
    }
}

/// The four quaternions of each permutation, as integer vectors (x, y, z, w).
/// The quaternion meant is the vector divided by its length.
pub open spec fn quat_table(col_0: int, col_1: int, slot: int) -> Seq<int> {
    if col_0 == 0 && col_1 == 1 {
        pick_quat(
            slot,
            seq![0, 0, 0, 1],
            seq![0, 0, 1, 0],
            seq![0, 1, 0, 0],
            seq![1, 0, 0, 0],
        )
    } else if col_0 == 0 && col_1 == 2 {
        pick_quat(
            slot,
            seq![0, 1, 1, 0],
            seq![1, 0, 0, 1],
            seq![1, 0, 0, -1],
            seq![0, 1, -1, 0],
        )
    } else if col_0 == 1 && col_1 == 2 {
        pick_quat(
            slot,
            seq![1, 1, 1, -1],
            seq![1, -1, 1, 1],
            seq![1, -1, -1, -1],
            seq![1, 1, -1, 1],
        )
    } else if col_0 == 1 && col_1 == 0 {
        pick_quat(
            slot,
            seq![0, 0, 1, 1],
            seq![0, 0, 1, -1],
            seq![1, 1, 0, 0],
            seq![1, -1, 0, 0],
        )
    } else if col_0 == 2 && col_1 == 0 {
        pick_quat(
            slot,
            seq![1, 1, 1, 1],
            seq![1, -1, -1, 1],
            seq![1, 1, -1, -1],
            seq![1, -1, 1, -1],
        )
    } else {
        pick_quat(
            slot,
            seq![0, 1, 0, -1],
            seq![1, 0, 1, 0],
            seq![0, 1, 0, 1],
            seq![1, 0, -1, 0],
        )
    }
}

/// The quaternion at `slot` among four.
pub open spec fn pick_quat(
    slot: int,
    first: Seq<int>,
    second: Seq<int>,
    third: Seq<int>,
    fourth: Seq<int>,
) -> Seq<int> {
    if slot == 0 {
        first
    } else if slot == 1 {
        second
    } else if slot == 2 {
        third
    } else {
        fourth
    }
}

/// The squared length of an integer quaternion (x, y, z, w).
pub open spec fn quat_norm(q: Seq<int>) -> int {
    q[0] * q[0] + q[1] * q[1] + q[2] * q[2] + q[3] * q[3]
}

/// The entry at `row` and `col` of the rotation matrix of the quaternion
/// `q / |q|`, multiplied by the squared length of `q`.
pub open spec fn quat_matrix_entry(q: Seq<int>, row: int, col: int) -> int {
    let x = q[0];
    let y = q[1];
    let z = q[2];
    let w = q[3];
    if row == 0 {
        if col == 0 {
            quat_norm(q) - 2 * (y * y + z * z)
        } else if col == 1 {
            2 * (x * y - z * w)
        } else {
            2 * (x * z + y * w)
        }
    } else if row == 1 {
        if col == 0 {
            2 * (x * y + z * w)
        } else if col == 1 {
            quat_norm(q) - 2 * (x * x + z * z)
        } else {
            2 * (y * z - x * w)
        }
    } else {
        if col == 0 {
            2 * (x * z - y * w)
        } else if col == 1 {
            2 * (y * z + x * w)
        } else {
            quat_norm(q) - 2 * (x * x + y * y)
        }
    }
}

/// The letter of an axis.
pub open spec fn axis_name(col: int) -> Seq<char> {
    if col == 0 { "x"@ } else if col == 1 { "y"@ } else { "z"@ }
}

/// A signed permutation matrix of size 3, encoded in a byte.
#[derive(Clone, Copy, PartialEq, Eq)]
pub struct Rotation(u8);

impl Rotation {
    #[verifier::type_invariant]
    spec fn inv(self) -> bool {
        valid_rotation_byte(self.0)
    }

    /// The encoding of the rotation.
    pub closed spec fn byte(self) -> u8 {
        self.0
    }

    /// The rotation is one that `from_byte` accepts.
    pub open spec fn wf(self) -> bool {
        valid_rotation_byte(self.byte())
    }

    /// The column of the non-zero entry of `row`.
    pub open spec fn spec_col(self, row: int) -> int {
        byte_col(self.byte(), row)
    }

    /// Whether the non-zero entry of `row` is -1.
    pub open spec fn spec_neg(self, row: int) -> bool {
        byte_neg(self.byte(), row)
    }

    /// The entry of the matrix at `row` and `col`: -1, 0 or 1.
    pub open spec fn spec_entry(self, row: int, col: int) -> int {
        if col != self.spec_col(row) {
            0
        } else if self.spec_neg(row) {
            -1
        } else {
            1
        }
    }

    /// The identity matrix.
    pub fn identity() -> (r: Rotation)
        ensures
            r.byte() == 4,
            r.wf(),
    {
        Rotation(4)
    }

    /// Accepts the encoding of a rotation, and rejects a byte whose two stored
    /// columns are equal or hold 3.
    pub fn from_byte(byte: u8) -> (r: Result<Rotation, FormatError>)
        ensures
            valid_rotation_byte(byte) ==> (r matches Ok(rot) && rot.byte() == byte),
            !valid_rotation_byte(byte) ==> r == Err::<Rotation, FormatError>(
                FormatError::InvalidRotationByte,
            ),
    {
        let index_nz1: u8 = byte % 4;
        let index_nz2: u8 = (byte / 4) % 4;
        if index_nz1 != index_nz2 && index_nz1 != 3 && index_nz2 != 3 {
            Ok(Rotation(byte))
        } else {
            Err(FormatError::InvalidRotationByte)
        }
    }

    /// The product of the matrix with a vector.
    pub open spec fn spec_apply(self, v: (int, int, int)) -> (int, int, int) {
        byte_apply(self.byte(), v)
    }

    /// The integer quaternion (x, y, z, w) of the rotation part: the rotation
    /// is that of this vector divided by its length.
    pub open spec fn spec_quat(self) -> Seq<int> {
        quat_table(
            self.spec_col(0),
            self.spec_col(1),
            quat_slot(byte_even(self.byte()), (self.byte() as int / 16) % 8),
        )
    }

    /// The flip part: 1 where the matrix is a rotation, -1 where it is a
    /// rotation followed by a reflection through the origin.
    pub open spec fn spec_scale(self) -> int {
        if byte_even(self.byte()) == (byte_neg_count(self.byte()) % 2 == 0) { 1 } else { -1 }
    }

    /// One row in the text form: the letter of its column, after a minus sign
    /// where the entry is negative.
    pub open spec fn spec_row_text(self, row: int) -> Seq<char> {
        (if self.spec_neg(row) { "-"@ } else { Seq::<char>::empty() }) + axis_name(self.spec_col(row))
    }

    /// The text form of the rotation, such as `Rotation(-y -z x)`.
    pub open spec fn spec_describe(self) -> Seq<char> {
        "Rotation("@ + self.spec_row_text(0) + " "@ + self.spec_row_text(1) + " "@
            + self.spec_row_text(2) + ")"@
    }

    /// The product of two rotations, as a rotation.
    pub closed spec fn spec_mul(self, rhs: Rotation) -> Rotation {
        Rotation(compose_bytes(self.0, rhs.0) as u8)
    }

    /// The column of the non-zero entry of `row`.
    fn col(&self, row: u8) -> (c: u8)
        requires
            row < 3,
        ensures
            c == self.spec_col(row as int),
            c < 3,
    {
        proof {
            use_type_invariant(self);
        }
        let first: u8 = self.0 % 4;
        let second: u8 = (self.0 / 4) % 4;
        if row == 0 {
            first
        } else if row == 1 {
            second
        } else {
            3 - first - second
        }
    }

    /// 1 where the non-zero entry of `row` is negative, else 0.
    fn sign_bit(&self, row: u8) -> (s: u8)
        requires
            row < 3,
        ensures
            s == (if self.spec_neg(row as int) { 1int } else { 0 }),
    {
        if row == 0 {
            (self.0 / 16) % 2
        } else if row == 1 {
            (self.0 / 32) % 2
        } else {
            (self.0 / 64) % 2
        }
    }

    /// Multiplies two rotations with integers only: the columns of `rhs` are
    /// permuted by those of `self`, and the signs are added modulo 2. The
    /// product is the rotation that applies `rhs` first and `self` then.
    pub fn compose(self, rhs: Rotation) -> (r: Rotation)
        ensures
            r == self.spec_mul(rhs),
            r.byte() == compose_bytes(self.byte(), rhs.byte()),
            r.wf(),
    {
        proof {
            use_type_invariant(&self);
            use_type_invariant(&rhs);
        }
        let lhs_0: u8 = self.col(0);
        let lhs_1: u8 = self.col(1);
        let lhs_2: u8 = self.col(2);
        let row_0: u8 = rhs.col(lhs_0);
        let row_1: u8 = rhs.col(lhs_1);
        let sign_0: u8 = (self.sign_bit(0) + rhs.sign_bit(lhs_0)) % 2;
        let sign_1: u8 = (self.sign_bit(1) + rhs.sign_bit(lhs_1)) % 2;
        let sign_2: u8 = (self.sign_bit(2) + rhs.sign_bit(lhs_2)) % 2;
        let unused: u8 = self.0 / 128;
        proof {
            lemma_compose_bytes(self.0, rhs.0);
        }
        Rotation(row_0 + 4 * row_1 + 16 * sign_0 + 32 * sign_1 + 64 * sign_2 + 128 * unused)
    }

    /// The entry of the matrix at `row` and `col`.
    fn entry(&self, row: u8, col: u8) -> (e: i8)
        requires
            row < 3,
            col < 3,
        ensures
            e == self.spec_entry(row as int, col as int),
    {
        if self.col(row) != col {
            0
        } else if self.sign_bit(row) == 1 {
            -1
        } else {
            1
        }
    }

    /// One component of the product of the matrix with a vector.
    fn apply_row(&self, v: (i64, i64, i64), row: u8) -> (r: i64)
        requires
            row < 3,
            v.0 > i64::MIN,
            v.1 > i64::MIN,
            v.2 > i64::MIN,
        ensures
            r == byte_apply_row(self.byte(), (v.0 as int, v.1 as int, v.2 as int), row as int),
    {
        let col: u8 = self.col(row);
        let picked: i64 = if col == 0 {
            v.0
        } else if col == 1 {
            v.1
        } else {
            v.2
        };
        if self.sign_bit(row) == 1 {
            -picked
        } else {
            picked
        }
    }

    /// The product of the matrix with a vector of whole numbers, such as a
    /// shift or a size. Nothing is rounded.
    pub fn apply(&self, v: (i32, i32, i32)) -> (r: (i64, i64, i64))
        ensures
            (r.0 as int, r.1 as int, r.2 as int) == self.spec_apply(
                (v.0 as int, v.1 as int, v.2 as int),
            ),
    {
        let wide: (i64, i64, i64) = (v.0 as i64, v.1 as i64, v.2 as i64);
        (self.apply_row(wide, 0), self.apply_row(wide, 1), self.apply_row(wide, 2))
    }

    /// The product of the matrix with the size of a model: the extent of the
    /// model along each axis after the rotation, negative where the rotation
    /// turns the model against the axis.
    pub fn apply_to_size(&self, x: u32, y: u32, z: u32) -> (r: (i64, i64, i64))
        ensures
            (r.0 as int, r.1 as int, r.2 as int) == self.spec_apply(
                (x as int, y as int, z as int),
            ),
    {
        let wide: (i64, i64, i64) = (x as i64, y as i64, z as i64);
        (self.apply_row(wide, 0), self.apply_row(wide, 1), self.apply_row(wide, 2))
    }

    /// The matrix as three columns of three entries, each -1, 0 or 1:
    /// `cols[c][r]` is the entry of row `r` and column `c`.
    pub fn to_cols_array_2d(&self) -> (cols: [[i8; 3]; 3])
        ensures
            forall|c: int, r: int|
                0 <= c < 3 && 0 <= r < 3 ==> #[trigger] cols@[c]@[r] == self.spec_entry(r, c),
    {
        [
            [self.entry(0, 0), self.entry(1, 0), self.entry(2, 0)],
            [self.entry(0, 1), self.entry(1, 1), self.entry(2, 1)],
            [self.entry(0, 2), self.entry(1, 2), self.entry(2, 2)],
        ]
    }

    /// Splits the matrix into a rotation and a flip. The rotation is the
    /// quaternion (x, y, z, w) in the direction of the first result, an
    /// integer vector of squared length 1, 2 or 4; the flip is the second
    /// result, (1, 1, 1) or (-1, -1, -1).
    pub fn to_quat_scale(&self) -> (r: ([i8; 4], [i8; 3]))
        ensures
            r.0@.len() == 4,
            forall|k: int| 0 <= k < 4 ==> #[trigger] r.0@[k] == self.spec_quat()[k],
            forall|k: int| 0 <= k < 3 ==> #[trigger] r.1@[k] == self.spec_scale(),
    {
        proof {
            use_type_invariant(self);
        }
        let index_nz1: u8 = self.col(0);
        let index_nz2: u8 = self.col(1);
        let flip: usize = ((self.0 / 16) % 8) as usize;
        let si: [i8; 3] = [1, 1, 1];
        let sf: [i8; 3] = [-1, -1, -1];
        let even: bool = index_nz2 == (index_nz1 + 1) % 3;
        let mapping: [usize; 8] = if even {
            [0, 3, 2, 1, 1, 2, 3, 0]
        } else {
            [3, 0, 1, 2, 2, 1, 0, 3]
        };
        let scales: [[i8; 3]; 8] = if even {
            [si, sf, sf, si, sf, si, si, sf]
        } else {
            [sf, si, si, sf, si, sf, sf, si]
        };
        let quats: [[i8; 4]; 4] = if index_nz1 == 0 && index_nz2 == 1 {
            [[0, 0, 0, 1], [0, 0, 1, 0], [0, 1, 0, 0], [1, 0, 0, 0]]
        } else if index_nz1 == 0 && index_nz2 == 2 {
            [[0, 1, 1, 0], [1, 0, 0, 1], [1, 0, 0, -1], [0, 1, -1, 0]]
        } else if index_nz1 == 1 && index_nz2 == 2 {
            [[1, 1, 1, -1], [1, -1, 1, 1], [1, -1, -1, -1], [1, 1, -1, 1]]
        } else if index_nz1 == 1 && index_nz2 == 0 {
            [[0, 0, 1, 1], [0, 0, 1, -1], [1, 1, 0, 0], [1, -1, 0, 0]]
        } else if index_nz1 == 2 && index_nz2 == 0 {
            [[1, 1, 1, 1], [1, -1, -1, 1], [1, 1, -1, -1], [1, -1, 1, -1]]
        } else {
            [[0, 1, 0, -1], [1, 0, 1, 0], [0, 1, 0, 1], [1, 0, -1, 0]]
        };
        let slot: usize = mapping[flip];
        let quat: [i8; 4] = quats[slot];
        proof {
            assert(even == byte_even(self.byte()));
            assert(slot == quat_slot(even, flip as int));
            let table = quat_table(index_nz1 as int, index_nz2 as int, slot as int);
            assert(table == self.spec_quat());
            assert(forall|k: int| 0 <= k < 4 ==> #[trigger] quat@[k] == table[k]);
        }
        (quat, scales[flip])
    }

    /// The text form of the rotation, such as `Rotation(-y -z x)`.
    pub fn describe(&self) -> (text: String)
        ensures
            text@ == self.spec_describe(),
    {
        let mut text = String::from_str("Rotation(");
        let mut row: u8 = 0;
        while row < 3
            invariant
                row <= 3,
                row == 0 ==> text@ == "Rotation("@,
                row == 1 ==> text@ == "Rotation("@ + self.spec_row_text(0) + " "@,
                row == 2 ==> text@ == "Rotation("@ + self.spec_row_text(0) + " "@
                    + self.spec_row_text(1) + " "@,
                row == 3 ==> text@ == self.spec_describe(),
            decreases 3 - row,
        {
            if self.sign_bit(row) == 1 {
                text.append("-");
            }
            let col: u8 = self.col(row);
            if col == 0 {
                text.append("x");
            } else if col == 1 {
                text.append("y");
            } else {
                text.append("z");
            }
            if row < 2 {
                text.append(" ");
            } else {
                text.append(")");
            }
            row = row + 1;
        }
        text
    }

    /// The encoding of the rotation.
    pub fn to_byte(&self) -> (b: u8)
        ensures
            b == self.byte(),
            valid_rotation_byte(b),
    {
        proof {
            use_type_invariant(self);
        }
        self.0
    }
}

impl core::ops::Mul<Rotation> for Rotation {
    type Output = Rotation;

    /// The product `self * rhs`.
    fn mul(self, rhs: Rotation) -> (r: Rotation) {
        self.compose(rhs)
    }
}

impl vstd::std_specs::ops::MulSpecImpl<Rotation> for Rotation {
    open spec fn obeys_mul_spec() -> bool {
        true
    }

    open spec fn mul_req(self, rhs: Rotation) -> bool {
        true
    }

    open spec fn mul_spec(self, rhs: Rotation) -> Rotation {
        self.spec_mul(rhs)
    }
}

/// The product of two valid rotation bytes is a valid rotation byte, and its
/// rows are those that `compose_bytes` describes.
pub proof fn lemma_compose_bytes(lhs: u8, rhs: u8)
    requires
        valid_rotation_byte(lhs),
        valid_rotation_byte(rhs),
    ensures
        0 <= compose_bytes(lhs, rhs) < 256,
        valid_rotation_byte(compose_bytes(lhs, rhs) as u8),
        forall|row: int|
            0 <= row < 3 ==> #[trigger] byte_col(compose_bytes(lhs, rhs) as u8, row) == byte_col(
                rhs,
                byte_col(lhs, row),
            ),
        forall|row: int|
            0 <= row < 3 ==> #[trigger] byte_neg(compose_bytes(lhs, rhs) as u8, row) == (byte_neg(
                lhs,
                row,
            ) != byte_neg(rhs, byte_col(lhs, row))),
{
    lemma_pack_byte(
        byte_col(rhs, byte_col(lhs, 0)),
        byte_col(rhs, byte_col(lhs, 1)),
        byte_neg(lhs, 0) != byte_neg(rhs, byte_col(lhs, 0)),
        byte_neg(lhs, 1) != byte_neg(rhs, byte_col(lhs, 1)),
        byte_neg(lhs, 2) != byte_neg(rhs, byte_col(lhs, 2)),
        lhs as int / 128,
    );
}

/// The entry at `row` and `col` of the matrix product of two rotations.
pub open spec fn matrix_product_entry(lhs: Rotation, rhs: Rotation, row: int, col: int) -> int {
    lhs.spec_entry(row, 0) * rhs.spec_entry(0, col) + lhs.spec_entry(row, 1) * rhs.spec_entry(1, col)
        + lhs.spec_entry(row, 2) * rhs.spec_entry(2, col)
}

/// The product of two rotations is a rotation, encoded by `compose_bytes`.
pub proof fn lemma_mul_closed(lhs: Rotation, rhs: Rotation)
    requires
        lhs.wf(),
        rhs.wf(),
    ensures
        lhs.spec_mul(rhs).wf(),
        lhs.spec_mul(rhs).byte() == compose_bytes(lhs.byte(), rhs.byte()),
{
    lemma_compose_bytes(lhs.byte(), rhs.byte());
}

/// Multiplying two rotations multiplies their matrices: each entry of the
/// product's matrix is the sum, over the middle index, of the products of the
/// entries of the two factors.
pub proof fn lemma_mul_is_matrix_product(lhs: Rotation, rhs: Rotation)
    requires
        lhs.wf(),
        rhs.wf(),
    ensures
        forall|row: int, col: int|
            0 <= row < 3 && 0 <= col < 3 ==> #[trigger] lhs.spec_mul(rhs).spec_entry(row, col)
                == matrix_product_entry(lhs, rhs, row, col),
{
    lemma_compose_bytes(lhs.byte(), rhs.byte());
    assert forall|row: int, col: int| 0 <= row < 3 && 0 <= col < 3 implies #[trigger] lhs.spec_mul(
        rhs,
    ).spec_entry(row, col) == matrix_product_entry(lhs, rhs, row, col) by {
        let product = lhs.spec_mul(rhs);
        let mid = lhs.spec_col(row);
        assert(product.spec_col(row) == rhs.spec_col(mid));
        assert(product.spec_neg(row) == (lhs.spec_neg(row) != rhs.spec_neg(mid)));
        assert(0 <= mid < 3);
    }
}

/// Applying a rotation to a vector multiplies the matrix with the vector.
pub proof fn lemma_apply_is_matrix_product(r: Rotation, v: (int, int, int))
    requires
        r.wf(),
    ensures
        forall|row: int|
            0 <= row < 3 ==> #[trigger] byte_apply_row(r.byte(), v, row) == r.spec_entry(row, 0)
                * v.0 + r.spec_entry(row, 1) * v.1 + r.spec_entry(row, 2) * v.2,
{
    assert forall|row: int| 0 <= row < 3 implies #[trigger] byte_apply_row(r.byte(), v, row)
        == r.spec_entry(row, 0) * v.0 + r.spec_entry(row, 1) * v.1 + r.spec_entry(row, 2)
        * v.2 by {
        lemma_entry_times(r.spec_entry(row, 0), v.0);
        lemma_entry_times(r.spec_entry(row, 1), v.1);
        lemma_entry_times(r.spec_entry(row, 2), v.2);
    }
}

/// An entry of a rotation matrix times a number.
proof fn lemma_entry_times(entry: int, x: int)
    requires
        -1 <= entry <= 1,
    ensures
        entry == 0 ==> entry * x == 0,
        entry == 1 ==> entry * x == x,
        entry == -1 ==> entry * x == -x,
{
    if entry == -1 {
        assert(entry * x == -x) by (nonlinear_arith)
            requires
                entry == -1,
        ;
    }
}

/// The identity leaves every rotation as it is, on either side.
pub proof fn lemma_mul_identity(r: Rotation, id: Rotation)
    requires
        r.wf(),
        id.byte() == 4,
    ensures
        forall|row: int, col: int|
            0 <= row < 3 && 0 <= col < 3 ==> #[trigger] id.spec_entry(row, col) == (if row == col {
                1int
            } else {
                0
            }),
        forall|row: int|
            0 <= row < 3 ==> #[trigger] r.spec_mul(id).spec_col(row) == r.spec_col(row)
                && r.spec_mul(id).spec_neg(row) == r.spec_neg(row),
        forall|row: int|
            0 <= row < 3 ==> #[trigger] id.spec_mul(r).spec_col(row) == r.spec_col(row)
                && id.spec_mul(r).spec_neg(row) == r.spec_neg(row),
{
    lemma_compose_bytes(r.byte(), id.byte());
    lemma_compose_bytes(id.byte(), r.byte());
}

/// The quaternion and the flip of a rotation give back its matrix: the
/// rotation matrix of the quaternion, scaled by the flip, has the entries of
/// the rotation. Both sides are multiplied by the squared length of the
/// integer quaternion, which is 1, 2 or 4.
pub proof fn lemma_quat_scale_fidelity(r: Rotation)
    requires
        r.wf(),
    ensures
        r.spec_quat().len() == 4,
        quat_norm(r.spec_quat()) == 1 || quat_norm(r.spec_quat()) == 2 || quat_norm(r.spec_quat())
            == 4,
        r.spec_scale() == 1 || r.spec_scale() == -1,
        forall|row: int, col: int|
            0 <= row < 3 && 0 <= col < 3 ==> r.spec_scale() * #[trigger] quat_matrix_entry(
                r.spec_quat(),
                row,
                col,
            ) == quat_norm(r.spec_quat()) * r.spec_entry(row, col),
{
    let q = r.spec_quat();
    let flip = (r.byte() as int / 16) % 8;
    let slot = quat_slot(byte_even(r.byte()), flip);
    assert(0 <= flip < 8);
    assert(0 <= slot < 4);
    assert(q == quat_table(r.spec_col(0), r.spec_col(1), slot));
    assert(q.len() == 4);
    assert(-1 <= q[0] <= 1 && -1 <= q[1] <= 1 && -1 <= q[2] <= 1 && -1 <= q[3] <= 1);
    lemma_small_products(q[0], q[1]);
    lemma_small_products(q[0], q[2]);
    lemma_small_products(q[0], q[3]);
    lemma_small_products(q[1], q[2]);
    lemma_small_products(q[1], q[3]);
    lemma_small_products(q[2], q[3]);
    lemma_small_products(q[0], q[0]);
    lemma_small_products(q[1], q[1]);
    lemma_small_products(q[2], q[2]);
    lemma_small_products(q[3], q[3]);
    assert forall|row: int, col: int| 0 <= row < 3 && 0 <= col < 3 implies r.spec_scale()
        * #[trigger] quat_matrix_entry(q, row, col) == quat_norm(q) * r.spec_entry(row, col) by {
        let m = quat_matrix_entry(q, row, col);
        let e = r.spec_entry(row, col);
        assert(m == (if e == 0 {
            0
        } else if (e == 1) == (r.spec_scale() == 1) {
            quat_norm(q)
        } else {
            -quat_norm(q)
        }));
        lemma_signed_product(r.spec_scale(), m, quat_norm(q), e);
    }
}

/// A number that is the norm, its negative or zero, as the signs of the
/// scale and of the entry say, is their product.
proof fn lemma_signed_product(scale: int, m: int, norm: int, e: int)
    requires
        scale == 1 || scale == -1,
        e == 0 || e == 1 || e == -1,
        m == (if e == 0 {
            0
        } else if (e == 1) == (scale == 1) {
            norm
        } else {
            -norm
        }),
    ensures
        scale * m == norm * e,
{
    if scale == 1 {
        assert(scale * m == m);
    } else {
        assert(scale * m == -m);
    }
    if e == 0 {
        assert(norm * e == 0);
    } else if e == 1 {
        assert(norm * e == norm);
    } else {
        assert(norm * e == -norm);
    }
}

/// The product of two numbers that are -1, 0 or 1.
proof fn lemma_small_products(a: int, b: int)
    requires
        -1 <= a <= 1,
        -1 <= b <= 1,
    ensures
        a == 0 || b == 0 ==> a * b == 0,
        a != 0 && a == b ==> a * b == 1,
        a != 0 && a == -b ==> a * b == -1,
{
    if a == 0 {
        assert(a * b == 0);
    } else if a == 1 {
        assert(a * b == b);
    } else {
        assert(a * b == -b) by (nonlinear_arith)
            requires
                a == -1,
        ;
    }
}

} // verus!
