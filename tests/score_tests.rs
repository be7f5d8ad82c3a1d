use grass_origin::geometry::{Offset, Position};
use grass_origin::hash::{offset_for, GeneratorVersion};
use grass_origin::score::{average_delta, AverageDelta};

fn pos(x: i32, y: i32, z: i32) -> Position {
    Position { x, y, z }
}

fn off(x: i8, y: i8, z: i8) -> Offset {
    Offset { x, y, z }
}

fn one_sample() -> Vec<(Position, Offset)> {
    vec![(pos(0, 64, 0), off(2, -8, -5))]
}

#[test]
fn position_arithmetic() {
    assert_eq!(pos(1, 2, 3).add(pos(10, 20, 30)), pos(11, 22, 33));
    assert_eq!(pos(1, 2, 3).sub(pos(10, 20, 30)), pos(-9, -18, -27));
    assert_eq!(pos(i32::MAX, 0, 0).add(pos(1, 0, 0)), pos(i32::MIN, 0, 0));
    assert_eq!(pos(i32::MIN, 0, 0).sub(pos(1, 0, 0)), pos(i32::MAX, 0, 0));
}

#[test]
fn offset_arithmetic() {
    assert_eq!(off(3, -2, 7).sub(off(1, 5, -1)), off(2, -7, 8));
    assert_eq!(off(3, -2, 7).abs(), 12);
    assert_eq!(off(-128, -128, -128).abs(), 384);
    assert_eq!(off(2, -8, -5).distance(&off(7, 4, -7)), 19);
    assert_eq!(off(127, -128, 0).distance(&off(-8, 7, 0)), 270);
}

#[test]
fn origin_matches_itself() {
    let samples = vec![
        (pos(0, 64, 0), offset_for(pos(0, 64, 0), GeneratorVersion::Legacy)),
        (pos(1, 64, 0), offset_for(pos(1, 64, 0), GeneratorVersion::Legacy)),
        (pos(1, 65, 3), offset_for(pos(1, 65, 3), GeneratorVersion::Legacy)),
    ];
    assert!(grass_origin::score::matches(pos(0, 64, 0), &samples, pos(0, 64, 0), GeneratorVersion::Legacy));
    assert!(grass_origin::score::matches(pos(-77, 3, 9), &samples, pos(-77, 3, 9), GeneratorVersion::Legacy));
}

#[test]
fn shifted_recording_is_found() {
    let samples = vec![(pos(100, 64, 100), off(2, -8, -5)), (pos(101, 64, 100), off(7, 4, -7))];
    let origin = samples[0].0;
    assert!(grass_origin::score::matches(pos(0, 64, 0), &samples, origin, GeneratorVersion::Legacy));
    assert!(!grass_origin::score::matches(pos(1, 64, 0), &samples, origin, GeneratorVersion::Legacy));
    assert_eq!(
        average_delta(pos(0, 64, 0), &samples, origin, GeneratorVersion::Legacy, 2, 10),
        Some(AverageDelta { total: 0, count: 2 })
    );
}

#[test]
fn deviation_below_threshold_is_reported() {
    let samples = one_sample();
    let r = average_delta(pos(1, 64, 0), &samples, pos(0, 64, 0), GeneratorVersion::Legacy, 1, 20);
    assert_eq!(r, Some(AverageDelta { total: 19, count: 1 }));
}

#[test]
fn deviation_at_threshold_is_dropped() {
    let samples = one_sample();
    let r = average_delta(pos(1, 64, 0), &samples, pos(0, 64, 0), GeneratorVersion::Legacy, 1, 19);
    assert_eq!(r, None);
}

#[test]
fn zero_delta_agrees_with_exact_match() {
    let samples = one_sample();
    for x in -3..3 {
        for y in 60..68 {
            let c = pos(x, y, 0);
            let exact = grass_origin::score::matches(c, &samples, pos(0, 64, 0), GeneratorVersion::Legacy);
            let tolerant = average_delta(c, &samples, pos(0, 64, 0), GeneratorVersion::Legacy, 1, 5);
            assert_eq!(exact, tolerant == Some(AverageDelta { total: 0, count: 1 }));
        }
    }
}

#[test]
fn early_exit_agrees_with_full_sum() {
    let samples = vec![
        (pos(0, 64, 0), off(2, -8, -5)),
        (pos(1, 64, 0), off(0, 0, 0)),
        (pos(1, 65, 3), off(0, 0, 0)),
    ];
    let origin = pos(0, 64, 0);
    let full = average_delta(pos(0, 64, 0), &samples, origin, GeneratorVersion::Legacy, 3, u64::MAX)
        .unwrap()
        .total;
    assert_eq!(full, 18 + 13);
    for max in 0..40u64 {
        let r = average_delta(pos(0, 64, 0), &samples, origin, GeneratorVersion::Legacy, 3, max);
        assert_eq!(r.is_none(), full >= max);
    }
}

#[test]
fn empty_samples_score_zero() {
    let samples: Vec<(Position, Offset)> = Vec::new();
    assert!(grass_origin::score::matches(pos(0, 0, 0), &samples, pos(0, 0, 0), GeneratorVersion::Later));
    assert_eq!(
        average_delta(pos(0, 0, 0), &samples, pos(0, 0, 0), GeneratorVersion::Later, 0, 0),
        Some(AverageDelta { total: 0, count: 0 })
    );
}
