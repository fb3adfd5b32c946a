use mycobot::{angle_to_int, coord_to_int, coords_to_int_vec, int_to_angle, int_to_coord, int_vec_to_coords};

#[test]
fn angle_scales_by_hundred() {
    assert_eq!(angle_to_int(45_000), 4500);
    assert_eq!(angle_to_int(0), 0);
    assert_eq!(angle_to_int(-90_000), -9000);
}

#[test]
fn angle_truncates_toward_zero() {
    assert_eq!(angle_to_int(12_349), 1234);
    assert_eq!(angle_to_int(-12_349), -1234);
    assert_eq!(angle_to_int(9), 0);
    assert_eq!(angle_to_int(-9), 0);
}

#[test]
fn coord_scales_by_ten() {
    assert_eq!(coord_to_int(150_000), 1500);
    assert_eq!(coord_to_int(12_399), 123);
    assert_eq!(coord_to_int(-12_399), -123);
}

#[test]
fn out_of_range_wraps() {
    // 400 degrees is 40000 hundredths, which wraps in 16 bits
    assert_eq!(angle_to_int(400_000), -25_536);
    assert_eq!(coord_to_int(i32::MAX), (21_474_836i64 as i16));
    assert_eq!(angle_to_int(i32::MIN), (-214_748_364i64 as i16));
}

#[test]
fn decode_scales_back() {
    assert_eq!(int_to_angle(5000), 50_000);
    assert_eq!(int_to_angle(i16::MIN), -327_680);
    assert_eq!(int_to_coord(-7), -700);
    assert_eq!(int_to_coord(i16::MAX), 3_276_700);
}

#[test]
fn angle_round_trip_within_resolution() {
    for d in [12_347, -12_347, 0, 1, -1, 327_679, -327_689, 45_000] {
        let back = int_to_angle(angle_to_int(d));
        assert!((d - back).abs() < 10, "{d} came back as {back}");
        assert!(back.abs() <= d.abs());
    }
}

#[test]
fn coord_round_trip_within_resolution() {
    for m in [12_399, -12_399, 99, -99, 3_276_799, -3_276_899] {
        let back = int_to_coord(coord_to_int(m));
        assert!((m - back).abs() < 100, "{m} came back as {back}");
        assert!(back.abs() <= m.abs());
    }
}

#[test]
fn pose_uses_dual_scale() {
    let pose = [1_000, 2_000, -3_000, 45_000, -90_000, 180_000];
    assert_eq!(coords_to_int_vec(&pose), vec![10, 20, -30, 4500, -9000, 18000]);
    assert_eq!(int_vec_to_coords(&[10, 20, -30, 4500, -9000, 18000]), pose.to_vec());
}

#[test]
fn pose_wire_values_round_trip_exactly() {
    let wire: Vec<i16> = vec![i16::MIN, -1, 0, 1, i16::MAX, 1234];
    assert_eq!(coords_to_int_vec(&int_vec_to_coords(&wire)), wire);
}

#[test]
fn pose_of_other_length() {
    assert_eq!(coords_to_int_vec(&[]), Vec::<i16>::new());
    assert_eq!(coords_to_int_vec(&[500, 500, 500, 500]), vec![5, 5, 5, 50]);
    assert_eq!(int_vec_to_coords(&[1, 1, 1, 1, 1, 1, 1]), vec![100, 100, 100, 10, 10, 10, 10]);
}
