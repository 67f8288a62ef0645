//! Homogeneous transforms.
//!
//! The entries of every matrix are single-precision numbers carried as bit
//! patterns.  The code here places and copies them; where two matrices are
//! to be multiplied, the caller supplies the multiplication.
use crate::scalar::{ONE, ZERO};
use vstd::prelude::*;

verus! {

/// A plain 4x4 homogeneous matrix: `self.0[i][j]` is the entry in row `i`,
/// column `j`.
#[derive(Clone, Copy, Debug, PartialEq, Eq)]
pub struct Homo4(pub [[u32; 4]; 4]);

/// A rotation about the origin, given by the rows of its 3x3 matrix.
#[derive(Clone, Copy, Debug, PartialEq, Eq)]
pub struct Rot3(pub [[u32; 3]; 3]);

/// A rotation followed by a translation.
#[derive(Clone, Copy, Debug, PartialEq, Eq)]
pub struct Iso3 {
    pub rotation: Rot3,
    pub translation: [u32; 3],
}

/// Anything that can become a homogeneous matrix.
#[derive(Clone, Copy, Debug, PartialEq, Eq)]
pub enum Transformation {
    Matrix(Homo4),
    Rotation(Rot3),
    RotationTranslation(Iso3),
}

/// The 4x4 identity.
pub open spec fn identity_matrix() -> Homo4 {
    Homo4(
        [[ONE, ZERO, ZERO, ZERO], [ZERO, ONE, ZERO, ZERO], [ZERO, ZERO, ONE, ZERO], [
            ZERO,
            ZERO,
            ZERO,
            ONE,
        ]],
    )
}

/// The 3x3 identity.
pub open spec fn identity_rotation() -> Rot3 {
    Rot3([[ONE, ZERO, ZERO], [ZERO, ONE, ZERO], [ZERO, ZERO, ONE]])
}

impl Homo4 {
    /// Entry in row `i`, column `j`.
    pub open spec fn entry(self, i: int, j: int) -> u32 {
        self.0[i][j]
    }

    /// Wraps sixteen entries given row by row.
    pub fn new(rows: [[u32; 4]; 4]) -> (m: Homo4)
        ensures
            m == Homo4(rows),
    {
        Homo4(rows)
    }

    pub fn identity() -> (m: Homo4)
        ensures
            m == identity_matrix(),
    {
        Homo4(
            [[ONE, ZERO, ZERO, ZERO], [ZERO, ONE, ZERO, ZERO], [ZERO, ZERO, ONE, ZERO], [
                ZERO,
                ZERO,
                ZERO,
                ONE,
            ]],
        )
    }

    /// A plain matrix is its own homogeneous form.
    pub fn to_homogeneous(&self) -> (m: Homo4)
        ensures
            m == *self,
    {
        *self
    }
}

impl Rot3 {
    /// Entry in row `i`, column `j`.
    pub open spec fn entry(self, i: int, j: int) -> u32 {
        self.0[i][j]
    }

    /// The rotation in the upper left block, zeros beside and below it, and
    /// one in the corner.
    pub open spec fn homogeneous(self) -> Homo4 {
        Homo4(
            [
                [self.0[0][0], self.0[0][1], self.0[0][2], ZERO],
                [self.0[1][0], self.0[1][1], self.0[1][2], ZERO],
                [self.0[2][0], self.0[2][1], self.0[2][2], ZERO],
                [ZERO, ZERO, ZERO, ONE],
            ],
        )
    }

    pub fn identity() -> (r: Rot3)
        ensures
            r == identity_rotation(),
    {
        Rot3([[ONE, ZERO, ZERO], [ZERO, ONE, ZERO], [ZERO, ZERO, ONE]])
    }

    pub fn to_homogeneous(&self) -> (m: Homo4)
        ensures
            m == self.homogeneous(),
    {
        let r = &self.0;
        Homo4(
            [
                [r[0][0], r[0][1], r[0][2], ZERO],
                [r[1][0], r[1][1], r[1][2], ZERO],
                [r[2][0], r[2][1], r[2][2], ZERO],
                [ZERO, ZERO, ZERO, ONE],
            ],
        )
    }
}

impl Iso3 {
    /// The rotation's homogeneous form with the translation in the last
    /// column.
    pub open spec fn homogeneous(self) -> Homo4 {
        Homo4(
            [
                [
                    self.rotation.0[0][0],
                    self.rotation.0[0][1],
                    self.rotation.0[0][2],
                    self.translation[0],
                ],
                [
                    self.rotation.0[1][0],
                    self.rotation.0[1][1],
                    self.rotation.0[1][2],
                    self.translation[1],
                ],
                [
                    self.rotation.0[2][0],
                    self.rotation.0[2][1],
                    self.rotation.0[2][2],
                    self.translation[2],
                ],
                [ZERO, ZERO, ZERO, ONE],
            ],
        )
    }

    /// The translation by `offset`, with no rotation.
    pub fn translation(offset: [u32; 3]) -> (iso: Iso3)
        ensures
            iso == (Iso3 { rotation: identity_rotation(), translation: offset }),
    {
        Iso3 { rotation: Rot3::identity(), translation: offset }
    }

    pub fn to_homogeneous(&self) -> (m: Homo4)
        ensures
            m == self.homogeneous(),
    {
        let r = &self.rotation.0;
        let t = &self.translation;
        Homo4(
            [
                [r[0][0], r[0][1], r[0][2], t[0]],
                [r[1][0], r[1][1], r[1][2], t[1]],
                [r[2][0], r[2][1], r[2][2], t[2]],
                [ZERO, ZERO, ZERO, ONE],
            ],
        )
    }
}

impl Transformation {
    /// The homogeneous matrix that this transform stands for.
    pub open spec fn homogeneous(self) -> Homo4 {
        match self {
            Transformation::Matrix(m) => m,
            Transformation::Rotation(r) => r.homogeneous(),
            Transformation::RotationTranslation(iso) => iso.homogeneous(),
        }
    }

    pub fn identity() -> (t: Transformation)
        ensures
            t == Transformation::Matrix(identity_matrix()),
    {
        Transformation::Matrix(Homo4::identity())
    }

    pub fn to_homogeneous(&self) -> (m: Homo4)
        ensures
            m == self.homogeneous(),
    {
        match self {
            Transformation::Matrix(m) => m.to_homogeneous(),
            Transformation::Rotation(r) => r.to_homogeneous(),
            Transformation::RotationTranslation(iso) => iso.to_homogeneous(),
        }
    }

    /// The sixteen entries, row by row, as the renderer takes them.
    pub fn to_matrix(&self) -> (rows: [[u32; 4]; 4])
        ensures
            rows == self.homogeneous().0,
    {
        self.to_homogeneous().0
    }

    /// The transform `self * other`, where `product` multiplies two
    /// homogeneous matrices.  Both operands reach `product` in homogeneous
    /// form, whichever kind they are.
    pub fn compose<P>(&self, other: &Transformation, product: P) -> (t: Transformation) where
        P: FnOnce(Homo4, Homo4) -> Homo4,

        requires
            product.requires((self.homogeneous(), other.homogeneous())),
        ensures
            t is Matrix,
            product.ensures((self.homogeneous(), other.homogeneous()), t.homogeneous()),
    {
        Transformation::Matrix(product(self.to_homogeneous(), other.to_homogeneous()))
    }
}

/// A rotation or an isometry is affine (its last row is `0 0 0 1`), and keeps
/// its rotation in the upper left block.
pub proof fn lemma_homogeneous_shape(t: Transformation)
    requires
        !(t is Matrix),
    ensures
        t.homogeneous().entry(3, 0) == ZERO,
        t.homogeneous().entry(3, 1) == ZERO,
        t.homogeneous().entry(3, 2) == ZERO,
        t.homogeneous().entry(3, 3) == ONE,
        forall|i: int, j: int|
            0 <= i < 3 && 0 <= j < 3 ==> #[trigger] t.homogeneous().entry(i, j) == (match t {
                Transformation::Rotation(r) => r.entry(i, j),
                Transformation::RotationTranslation(iso) => iso.rotation.entry(i, j),
                Transformation::Matrix(m) => m.entry(i, j),
            }),
        forall|i: int|
            0 <= i < 3 ==> #[trigger] t.homogeneous().entry(i, 3) == (match t {
                Transformation::RotationTranslation(iso) => iso.translation[i],
                _ => ZERO,
            }),
{
}

} // verus!
