use dot_vox::{FormatError, Rotation};

const SPMS: [u8; 6] = [0b0001, 0b0010, 0b0100, 0b0110, 0b1000, 0b1001];

fn dense(rotation: &Rotation) -> glam::Mat3 {
    let cols = rotation.to_cols_array_2d();
    let mut floats = [[0.0f32; 3]; 3];
    for c in 0..3 {
        for r in 0..3 {
            floats[c][r] = cols[c][r] as f32;
        }
    }
    glam::Mat3::from_cols_array_2d(&floats)
}

#[test]
fn test_spm_mul() {
    let spms: [u8; 6] = [0b0001, 0b0010, 0b0100, 0b0110, 0b1000, 0b1001];

    // Test for every possible spms
    for i in 0..6 {
        for j in 0..6 {
            for sign_i in 0..8 {
                for sign_j in 0..8 {
                    let spm_lhs = Rotation::from_byte(spms[i] | (sign_i << 4)).unwrap();
                    let spm_rhs = Rotation::from_byte(spms[j] | (sign_j << 4)).unwrap();
                    let spm_mul = spm_lhs * spm_rhs;
                    let spm_mul_mat: glam::Mat3 = dense(&spm_mul);

                    let spm_lhs_mat: glam::Mat3 = dense(&spm_lhs);
                    let spm_rhs_mat: glam::Mat3 = dense(&spm_rhs);

                    // Compare the result of the integer-only multiplication with the
                    // result of the f32 matrix multiplication
                    let spm_reference_result: glam::Mat3 = spm_lhs_mat * spm_rhs_mat;
                    assert_eq!(spm_mul_mat, spm_reference_result);
                }
            }
        }
    }
}

#[test]
fn test_to_quat_scale() {
    let spms: [u8; 6] = [0b0100, 0b1000, 0b1001, 0b0001, 0b0010, 0b0110];

    // Test for every possible spms
    for i in 0..6 {
        for sign_i in 0..8 {
            let spm = Rotation::from_byte(spms[i] | (sign_i << 4)).unwrap();
            let (rotation, scale) = spm.to_quat_scale();
            let length = rotation.iter().map(|c| (*c as f32) * (*c as f32)).sum::<f32>().sqrt();
            let rotation = glam::Quat::from_array([
                rotation[0] as f32 / length,
                rotation[1] as f32 / length,
                rotation[2] as f32 / length,
                rotation[3] as f32 / length,
            ]);
            let scale = glam::Vec3::new(scale[0] as f32, scale[1] as f32, scale[2] as f32);
            let rs_mat = glam::Mat3::from_quat(rotation)
                * glam::mat3(
                    glam::Vec3::new(scale.x, 0.0, 0.0),
                    glam::Vec3::new(0.0, scale.y, 0.0),
                    glam::Vec3::new(0.0, 0.0, scale.z),
                );
            let reference_mat: glam::Mat3 = dense(&spm);
            for i in 0..3 {
                for j in 0..3 {
                    if (reference_mat.col(i)[j] - rs_mat.col(i)[j]).abs() > 0.00001 {
                        println!("{:?} vs {:?}", rs_mat, reference_mat);
                        panic!();
                    }
                }
            }
        }
    }
}

#[test]
fn quaternions_of_the_identity_and_of_a_quarter_turn() {
    let identity = Rotation::identity();
    assert_eq!(identity.to_quat_scale(), ([0, 0, 0, 1], [1, 1, 1]));
    // Row 0 points to y, row 1 to x, all positive: a reflection.
    let swapped = Rotation::from_byte(0b0001).unwrap();
    assert_eq!(swapped.to_quat_scale(), ([1, -1, 0, 0], [-1, -1, -1]));
    // The same with row 0 negative: a quarter turn about z.
    let turned = Rotation::from_byte(0b0001 | (1 << 4)).unwrap();
    assert_eq!(turned.to_quat_scale(), ([0, 0, 1, 1], [1, 1, 1]));
}

#[test]
fn the_unused_bit_does_not_disturb_the_quaternion() {
    let with_bit = Rotation::from_byte(0b1000_0100).unwrap();
    assert_eq!(with_bit.to_quat_scale(), Rotation::identity().to_quat_scale());
    assert_eq!(with_bit.to_cols_array_2d(), Rotation::identity().to_cols_array_2d());
}

#[test]
fn from_byte_accepts_the_48_encodings_below_128() {
    let mut valid = 0;
    for byte in 0..128u8 {
        match Rotation::from_byte(byte) {
            Ok(rotation) => {
                valid += 1;
                assert_eq!(rotation.to_byte(), byte);
                assert!(SPMS.contains(&(byte & 0b1111)));
            }
            Err(e) => {
                assert_eq!(e, FormatError::InvalidRotationByte);
                assert!(!SPMS.contains(&(byte & 0b1111)));
            }
        }
    }
    assert_eq!(valid, 48);
}

#[test]
fn from_byte_rejects_equal_columns_and_the_column_three() {
    assert_eq!(Rotation::from_byte(0b0000).err(), Some(FormatError::InvalidRotationByte));
    assert_eq!(Rotation::from_byte(0b0101).err(), Some(FormatError::InvalidRotationByte));
    assert_eq!(Rotation::from_byte(0b0011).err(), Some(FormatError::InvalidRotationByte));
    assert_eq!(Rotation::from_byte(0b1100).err(), Some(FormatError::InvalidRotationByte));
    assert_eq!(Rotation::from_byte(0b1111).err(), Some(FormatError::InvalidRotationByte));
}

#[test]
fn identity_is_the_unit_matrix() {
    let identity = Rotation::identity();
    assert_eq!(identity.to_byte(), 0b0000100);
    assert_eq!(identity.to_cols_array_2d(), [[1, 0, 0], [0, 1, 0], [0, 0, 1]]);
}

#[test]
fn dense_expansion_of_the_documented_example() {
    // R = [[0, 1, 0], [0, 0, -1], [-1, 0, 0]], by rows.
    let byte: u8 = (1 << 0) | (2 << 2) | (0 << 4) | (1 << 5) | (1 << 6);
    let rotation = Rotation::from_byte(byte).unwrap();
    // By columns: column c holds the entries of rows 0, 1, 2.
    assert_eq!(rotation.to_cols_array_2d(), [[0, 0, -1], [1, 0, 0], [0, -1, 0]]);
    assert_eq!(rotation.describe(), "Rotation(y -z -x)");
}

#[test]
fn describe_names_the_axes_with_their_signs() {
    assert_eq!(Rotation::identity().describe(), "Rotation(x y z)");
    let rotation = Rotation::from_byte(0b0010_1001 | (1 << 4)).unwrap();
    assert_eq!(rotation.describe(), "Rotation(-y -z x)");
}

#[test]
fn closure_over_all_pairs() {
    for a in 0..=255u8 {
        for b in 0..=255u8 {
            if let (Ok(lhs), Ok(rhs)) = (Rotation::from_byte(a), Rotation::from_byte(b)) {
                let product = lhs.compose(rhs);
                assert!(Rotation::from_byte(product.to_byte()).is_ok());
                assert!((lhs * rhs) == product);
            }
        }
    }
}

#[test]
fn identity_is_neutral() {
    let identity = Rotation::identity();
    for byte in 0..128u8 {
        if let Ok(rotation) = Rotation::from_byte(byte) {
            assert_eq!((rotation * identity).to_byte(), byte);
            assert_eq!((identity * rotation).to_byte(), byte);
        }
    }
}

#[test]
fn apply_multiplies_the_matrix_with_a_vector() {
    let byte: u8 = (1 << 0) | (2 << 2) | (0 << 4) | (1 << 5) | (1 << 6);
    let rotation = Rotation::from_byte(byte).unwrap();
    assert_eq!(rotation.apply((10, 20, 30)), (20, -30, -10));
    assert_eq!(rotation.apply((i32::MIN, 0, i32::MAX)), (0, -(i32::MAX as i64), -(i32::MIN as i64)));
    assert_eq!(rotation.apply_to_size(u32::MAX, 2, 3), (2, -3, -(u32::MAX as i64)));
    let as_floats = dense(&rotation) * glam::Vec3::new(10.0, 20.0, 30.0);
    assert_eq!(as_floats, glam::Vec3::new(20.0, -30.0, -10.0));
}
