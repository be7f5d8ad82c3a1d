use grass_origin::geometry::{Offset, Position};
use grass_origin::hash::{coord_random, grass_offset, offset_for, GeneratorVersion};

fn pos(x: i32, y: i32, z: i32) -> Position {
    Position { x, y, z }
}

fn off(x: i8, y: i8, z: i8) -> Offset {
    Offset { x, y, z }
}

#[test]
fn seed_of_origin_is_zero() {
    assert_eq!(coord_random(0, 0, 0), 0);
}

#[test]
fn seed_exact_values() {
    assert_eq!(coord_random(1, 0, 0), 8721310148063877930);
    assert_eq!(coord_random(0, 64, 0), 173333959360);
    assert_eq!(coord_random(100, 64, -200), 1933329752383930748);
}

#[test]
fn offset_exact_values() {
    assert_eq!(offset_for(pos(0, 64, 0), GeneratorVersion::Legacy), off(2, -8, -5));
    assert_eq!(offset_for(pos(100, 64, -200), GeneratorVersion::Legacy), off(-7, -8, 4));
    assert_eq!(offset_for(pos(100, 64, -200), GeneratorVersion::Later), off(-8, 3, 7));
    assert_eq!(offset_for(pos(1, 0, 0), GeneratorVersion::Legacy), off(-5, 5, 7));
    assert_eq!(grass_offset(100, 64, -200, GeneratorVersion::Legacy), off(-7, -8, 4));
}

#[test]
fn offset_is_deterministic() {
    for x in -20..20 {
        for z in -20..20 {
            let p = pos(x, 64, z);
            for v in [GeneratorVersion::Legacy, GeneratorVersion::Later] {
                assert_eq!(offset_for(p, v), offset_for(p, v));
            }
        }
    }
}

#[test]
fn later_version_ignores_height() {
    for y in [-1000, 0, 1, 62, 64, 70, i32::MAX, i32::MIN] {
        assert_eq!(
            offset_for(pos(5, y, 7), GeneratorVersion::Later),
            offset_for(pos(5, 0, 7), GeneratorVersion::Later)
        );
    }
}

#[test]
fn legacy_version_reads_height() {
    assert_eq!(offset_for(pos(5, 62, 7), GeneratorVersion::Legacy), off(-1, 5, 3));
    assert_eq!(offset_for(pos(5, 63, 7), GeneratorVersion::Legacy), off(-1, 5, -8));
    assert_eq!(offset_for(pos(5, 64, 7), GeneratorVersion::Legacy), off(2, 1, -1));
    assert_ne!(
        offset_for(pos(5, 62, 7), GeneratorVersion::Legacy),
        offset_for(pos(5, 64, 7), GeneratorVersion::Legacy)
    );
}

#[test]
fn nibble_eight_reads_as_minus_eight() {
    assert_eq!((coord_random(6, 0, 0) >> 16) & 15, 8);
    assert_eq!(offset_for(pos(6, 0, 0), GeneratorVersion::Legacy).x, -8);
    for x in -200..200 {
        let seed = coord_random(x, 0, 0);
        let o = offset_for(pos(x, 0, 0), GeneratorVersion::Legacy);
        if (seed >> 16) & 15 == 8 {
            assert_eq!(o.x, -8);
        }
        assert!(o.x >= -8 && o.x < 8 && o.y >= -8 && o.y < 8 && o.z >= -8 && o.z < 8);
    }
}
