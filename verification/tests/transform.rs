use nalgebra::{IsometryMatrix3, Matrix4, Rotation3, Translation3, Vector3};
use rust_mesh::scalar::{ONE, ZERO};
use rust_mesh::transform::{Homo4, Iso3, Rot3, Transformation};

fn matrix_of(m: &Homo4) -> Matrix4<f32> {
    Matrix4::from_fn(|i, j| f32::from_bits(m.0[i][j]))
}

fn bits_of(m: &Matrix4<f32>) -> Homo4 {
    let mut rows = [[0u32; 4]; 4];
    for i in 0..4 {
        for j in 0..4 {
            rows[i][j] = m[(i, j)].to_bits();
        }
    }
    Homo4(rows)
}

fn rotation_bits(r: &Rotation3<f32>) -> Rot3 {
    let mut rows = [[0u32; 3]; 3];
    for i in 0..3 {
        for j in 0..3 {
            rows[i][j] = r.matrix()[(i, j)].to_bits();
        }
    }
    Rot3(rows)
}

fn multiply(a: Homo4, b: Homo4) -> Homo4 {
    bits_of(&(matrix_of(&a) * matrix_of(&b)))
}

fn close(a: &Homo4, b: &Homo4) -> bool {
    (matrix_of(a) - matrix_of(b)).abs().max() < 1.0e-4
}

fn sample_matrix(seed: f32) -> Homo4 {
    bits_of(&Matrix4::new(
        seed,
        2.0,
        -1.0,
        0.5,
        0.25,
        seed + 1.0,
        3.0,
        -2.0,
        1.5,
        -0.75,
        seed - 2.0,
        4.0,
        0.0,
        0.0,
        0.0,
        1.0,
    ))
}

#[test]
fn identity_is_the_unit_matrix() {
    let id = Homo4::identity();
    for i in 0..4 {
        for j in 0..4 {
            assert_eq!(id.0[i][j], if i == j { ONE } else { ZERO });
        }
    }
    assert_eq!(matrix_of(&id), Matrix4::<f32>::identity());
    assert_eq!(Transformation::identity(), Transformation::Matrix(id));
    assert_eq!(Transformation::identity().to_homogeneous(), id);
}

#[test]
fn new_keeps_the_rows_as_given() {
    let rows = [[1, 2, 3, 4], [5, 6, 7, 8], [9, 10, 11, 12], [13, 14, 15, 16]];
    let m = Homo4::new(rows);
    assert_eq!(m.0, rows);
    assert_eq!(m.to_homogeneous(), m);
    assert_eq!(Transformation::Matrix(m).to_matrix(), rows);
}

#[test]
fn rotation_becomes_the_homogeneous_matrix_of_the_same_rotation() {
    let r = Rotation3::from_axis_angle(&Vector3::z_axis(), std::f32::consts::FRAC_PI_6);
    let bits = rotation_bits(&r);
    let expected = bits_of(&r.to_homogeneous());
    assert_eq!(bits.to_homogeneous(), expected);
    assert_eq!(Transformation::Rotation(bits).to_homogeneous(), expected);
    assert_eq!(Transformation::Rotation(bits).to_matrix(), expected.0);
}

#[test]
fn rotation_fills_the_last_row_and_column_with_zeros_and_a_one() {
    let r = Rot3([[11, 12, 13], [21, 22, 23], [31, 32, 33]]);
    assert_eq!(
        r.to_homogeneous().0,
        [[11, 12, 13, ZERO], [21, 22, 23, ZERO], [31, 32, 33, ZERO], [ZERO, ZERO, ZERO, ONE]]
    );
}

#[test]
fn identity_rotation_becomes_the_identity_matrix() {
    assert_eq!(Rot3::identity().to_homogeneous(), Homo4::identity());
    assert_eq!(rotation_bits(&Rotation3::<f32>::identity()), Rot3::identity());
}

#[test]
fn isometry_becomes_the_homogeneous_matrix_of_the_same_isometry() {
    let r = Rotation3::from_axis_angle(&Vector3::y_axis(), 0.75);
    let iso = IsometryMatrix3::from_parts(Translation3::new(1.5, -2.0, 3.25), r);
    let bits = Iso3 {
        rotation: rotation_bits(&r),
        translation: [1.5f32.to_bits(), (-2.0f32).to_bits(), 3.25f32.to_bits()],
    };
    let expected = bits_of(&iso.to_homogeneous());
    assert_eq!(bits.to_homogeneous(), expected);
    assert_eq!(Transformation::RotationTranslation(bits).to_homogeneous(), expected);
}

#[test]
fn isometry_puts_the_translation_into_the_last_column() {
    let iso = Iso3 { rotation: Rot3([[11, 12, 13], [21, 22, 23], [31, 32, 33]]), translation: [
        14, 24, 34,
    ] };
    assert_eq!(
        iso.to_homogeneous().0,
        [[11, 12, 13, 14], [21, 22, 23, 24], [31, 32, 33, 34], [ZERO, ZERO, ZERO, ONE]]
    );
}

#[test]
fn translation_is_the_translation_matrix() {
    let iso = Iso3::translation([2.0f32.to_bits(), 3.0f32.to_bits(), (-4.0f32).to_bits()]);
    assert_eq!(iso.rotation, Rot3::identity());
    assert_eq!(
        matrix_of(&iso.to_homogeneous()),
        Translation3::new(2.0f32, 3.0, -4.0).to_homogeneous()
    );
}

#[test]
fn compose_is_the_matrix_product_in_the_order_given() {
    let a = Transformation::Matrix(sample_matrix(2.0));
    let b = Transformation::Matrix(sample_matrix(-3.0));
    let ab = a.compose(&b, multiply);
    let ba = b.compose(&a, multiply);
    assert_eq!(
        ab,
        Transformation::Matrix(bits_of(&(matrix_of(&sample_matrix(2.0)) * matrix_of(
            &sample_matrix(-3.0)
        ))))
    );
    assert_ne!(ab, ba);
}

#[test]
fn compose_has_an_exact_value_on_small_matrices() {
    let t = Iso3::translation([1.0f32.to_bits(), 2.0f32.to_bits(), 3.0f32.to_bits()]);
    let s = bits_of(&Matrix4::new(
        2.0, 0.0, 0.0, 0.0, 0.0, 2.0, 0.0, 0.0, 0.0, 0.0, 2.0, 0.0, 0.0, 0.0, 0.0, 1.0,
    ));
    let ts = Transformation::RotationTranslation(t).compose(&Transformation::Matrix(s), multiply);
    let expected = Matrix4::new(
        2.0, 0.0, 0.0, 1.0, 0.0, 2.0, 0.0, 2.0, 0.0, 0.0, 2.0, 3.0, 0.0, 0.0, 0.0, 1.0,
    );
    assert_eq!(matrix_of(&ts.to_homogeneous()), expected);
    let st = Transformation::Matrix(s).compose(&Transformation::RotationTranslation(t), multiply);
    let expected = Matrix4::new(
        2.0, 0.0, 0.0, 2.0, 0.0, 2.0, 0.0, 4.0, 0.0, 0.0, 2.0, 6.0, 0.0, 0.0, 0.0, 1.0,
    );
    assert_eq!(matrix_of(&st.to_homogeneous()), expected);
}

#[test]
fn compose_mixes_the_kinds_of_transform() {
    let r = Rotation3::from_axis_angle(&Vector3::x_axis(), 0.5);
    let iso = IsometryMatrix3::from_parts(Translation3::new(0.5, 0.25, -1.0), r);
    let rotation = Transformation::Rotation(rotation_bits(&r));
    let isometry = Transformation::RotationTranslation(Iso3 {
        rotation: rotation_bits(&r),
        translation: [0.5f32.to_bits(), 0.25f32.to_bits(), (-1.0f32).to_bits()],
    });
    let plain = Transformation::Matrix(sample_matrix(1.0));
    let all = rotation.compose(&isometry, multiply).compose(&plain, multiply);
    let expected = r.to_homogeneous() * iso.to_homogeneous() * matrix_of(&sample_matrix(1.0));
    assert_eq!(all.to_homogeneous(), bits_of(&expected));
}

#[test]
fn compose_with_the_identity_gives_the_transform_back() {
    let t = Transformation::Matrix(sample_matrix(4.0));
    let id = Transformation::identity();
    assert_eq!(id.compose(&t, multiply).to_homogeneous(), t.to_homogeneous());
    assert_eq!(t.compose(&id, multiply).to_homogeneous(), t.to_homogeneous());
}

#[test]
fn compose_is_associative_within_tolerance() {
    let a = Transformation::Matrix(sample_matrix(0.3));
    let b = Transformation::Rotation(rotation_bits(&Rotation3::from_axis_angle(
        &Vector3::y_axis(),
        1.1,
    )));
    let c = Transformation::RotationTranslation(Iso3 {
        rotation: rotation_bits(&Rotation3::from_axis_angle(&Vector3::z_axis(), -0.4)),
        translation: [0.1f32.to_bits(), 0.2f32.to_bits(), 0.3f32.to_bits()],
    });
    let left = a.compose(&b, multiply).compose(&c, multiply);
    let right = a.compose(&b.compose(&c, multiply), multiply);
    assert!(close(&left.to_homogeneous(), &right.to_homogeneous()));
}

#[test]
fn compose_hands_the_homogeneous_forms_to_the_product() {
    let r = Rot3([[1, 2, 3], [4, 5, 6], [7, 8, 9]]);
    let m = Homo4([[9, 8, 7, 6], [5, 4, 3, 2], [1, 2, 3, 4], [5, 6, 7, 8]]);
    let seen = std::cell::RefCell::new(Vec::new());
    let out = Transformation::Rotation(r).compose(&Transformation::Matrix(m), |a, b| {
        seen.borrow_mut().push((a, b));
        Homo4([[42; 4]; 4])
    });
    assert_eq!(out, Transformation::Matrix(Homo4([[42; 4]; 4])));
    assert_eq!(*seen.borrow(), vec![(r.to_homogeneous(), m)]);
}
