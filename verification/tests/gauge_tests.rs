use cpu_gauges::filter::{Filter, Vector3};
use cpu_gauges::gauge::{
    principal_angle, Bar, Dial, Mapping, Meter, BAR_FRAME_LENGTH, BAR_THICKNESS, DIAL_DAMPING,
    DIAL_FREQUENCY, DIAL_REST_ANGLE, DIAL_SWEEP,
};
use cpu_gauges::sample::{Channel, Sample};
use cpu_gauges::store::SnapshotStore;
use tokio::sync::Mutex;

fn dial_mapping() -> Mapping {
    Mapping { gain: DIAL_SWEEP, offset: DIAL_REST_ANGLE }
}

#[test]
fn the_dial_mapping_sweeps_from_rest_to_full_load() {
    let m = dial_mapping();
    assert_eq!(m.apply(0), 125_000);
    assert_eq!(m.apply(250_000), 62_500);
    assert_eq!(m.apply(333_333), 41_667);
    assert_eq!(m.apply(500_000), 0);
    assert_eq!(m.apply(1_000_000), -125_000);
    assert_eq!(m.apply(2_000_000), -375_000);
}

#[test]
fn the_same_ratio_maps_to_the_same_target_whatever_came_before() {
    let m = dial_mapping();
    let first = m.apply(123_456);
    m.apply(0);
    m.apply(999_999);
    assert_eq!(m.apply(123_456), first);
    assert_eq!(first, 94_136);
}

#[test]
fn a_mapping_rounds_toward_zero_and_saturates() {
    let m = Mapping { gain: -3, offset: 0 };
    assert_eq!(m.apply(999_999), -2);
    assert_eq!(m.apply(333_333), 0);
    let n = Mapping { gain: 3, offset: -1 };
    assert_eq!(n.apply(999_999), 1);
    let big = Mapping { gain: i64::MAX, offset: i64::MAX };
    assert_eq!(big.apply(u32::MAX), 1_000_000_000);
    let small = Mapping { gain: i64::MIN, offset: i64::MIN };
    assert_eq!(small.apply(u32::MAX), -1_000_000_000);
}

#[test]
fn angles_are_brought_into_one_turn() {
    assert_eq!(principal_angle(0), 0);
    assert_eq!(principal_angle(125_000), 125_000);
    assert_eq!(principal_angle(179_999), 179_999);
    assert_eq!(principal_angle(180_000), -180_000);
    assert_eq!(principal_angle(-180_000), -180_000);
    assert_eq!(principal_angle(360_000), 0);
    assert_eq!(principal_angle(540_001), -179_999);
    assert_eq!(principal_angle(-540_001), 179_999);
    assert_eq!(principal_angle(i64::MAX), 55_807);
    assert_eq!(principal_angle(i64::MIN), -55_808);
}

#[test]
fn a_new_dial_stands_in_its_cell_at_angle_zero() {
    let d = Dial::new(5);
    assert_eq!(d.channel(), Channel::Core(5));
    assert_eq!(d.column(), 1);
    assert_eq!(d.row(), 2);
    assert_eq!(d.goal(), 0);
    assert_eq!(d.rotation(), Vector3::zero());
    let e = Dial::new(0);
    assert_eq!((e.column(), e.row()), (0, 0));
    let f = Dial::new(usize::MAX - 1);
    assert_eq!((f.column(), f.row()), (0, usize::MAX / 2));
}

#[test]
fn a_dial_turns_about_the_z_axis_by_the_frame_time() {
    let mut d = Dial::new(0);
    assert_eq!(d.update(125_000, 16_000), Vector3::zero());
    assert_eq!(d.goal(), 125_000);
    assert_eq!(d.update(125_000, 16_000), Vector3::new(0, 0, 1_263));
    assert_eq!(d.rotation(), Vector3::new(0, 0, 1_263));
    assert_eq!(d.update(125_000, 16_000), Vector3::new(0, 0, 3_573));
    let mut e = Dial::new(1);
    e.update(-125_000, 16_000);
    assert_eq!(e.update(-125_000, 16_000), Vector3::new(0, 0, -1_263));
}

#[test]
fn a_dial_moves_as_its_filter_does_over_the_same_time() {
    let mut d = Dial::new(0);
    let mut f = Filter::new(DIAL_FREQUENCY, DIAL_DAMPING, 0, Vector3::zero()).unwrap();
    for dt in [16_000u64, 1_000, 33_000, 16_000, 250_000] {
        assert_eq!(d.update(1_000, dt), f.update(dt, Vector3::new(0, 0, 1_000)));
    }
    let mut g = Filter::new(DIAL_FREQUENCY, DIAL_DAMPING, 0, Vector3::zero()).unwrap();
    g.update(16_000, Vector3::new(0, 0, 1_000));
    assert_eq!(g.velocity(), Vector3::new(0, 0, 631));
}

#[test]
fn a_dial_wraps_the_angle_it_is_sent_to() {
    let mut d = Dial::new(0);
    d.update(-375_000, 16_000);
    assert_eq!(d.goal(), -15_000);
    assert_eq!(d.update(-375_000, 16_000), Vector3::new(0, 0, -151));
}

#[test]
fn a_dial_stands_in_its_cell_of_the_scene() {
    assert_eq!(Dial::new(0).position(), Vector3::new(-1_000, 1_000, 0));
    assert_eq!(Dial::new(1).position(), Vector3::new(750, 1_000, 0));
    assert_eq!(Dial::new(2).position(), Vector3::new(-1_000, -750, 0));
    assert_eq!(Dial::new(5).position(), Vector3::new(750, -2_500, 0));
    assert_eq!(Dial::new(1_142_858).position(), Vector3::new(-1_000, -999_999_750, 0));
    assert_eq!(Dial::new(1_142_860).position(), Vector3::new(-1_000, -1_000_001_500, 0));
    assert_eq!(Dial::new(2_000_000).position(), Vector3::new(-1_000, -1_749_999_000, 0));
    assert_eq!(Dial::new(2_000_002).position(), Vector3::new(-1_000, -1_750_000_750, 0));
    assert_eq!(Dial::new(16_777_215).position(), Vector3::new(750, -14_680_061_250, 0));
    assert_eq!(Dial::new(usize::MAX).position(), Vector3::new(750, -i64::MAX, 0));
}

#[test]
fn dials_for_different_cores_stand_apart() {
    let ids: [usize; 8] = [0, 1, 2, 3, 1_142_858, 1_142_860, 2_000_000, 2_000_002];
    for (n, i) in ids.iter().enumerate() {
        for j in ids.iter().skip(n + 1) {
            assert_ne!(Dial::new(*i).position(), Dial::new(*j).position());
        }
    }
}

#[test]
fn a_dial_comes_to_rest_on_its_goal() {
    let mut d = Dial::new(0);
    for _ in 0..20_000 {
        d.update(-125_000, 16_000);
    }
    assert_eq!(d.goal(), -125_000);
    assert_eq!(d.rotation(), Vector3::new(0, 0, -125_000));
    assert_eq!(d.update(-125_000, 16_000), Vector3::new(0, 0, -125_000));
}

#[test]
fn a_bar_settles_on_its_usage() {
    let mut b = Bar::new(0);
    for _ in 0..20_000 {
        b.update(750_000, 16_000);
    }
    for _ in 0..100 {
        let scale = b.update(750_000, 16_000);
        assert!((scale.x - 750_000).abs() <= 1);
        assert!((scale.y - BAR_THICKNESS).abs() <= 1);
        assert_eq!(scale.z, 0);
    }
}

#[test]
fn a_dial_takes_the_longest_frame() {
    let mut d = Dial::new(0);
    let r = d.update(125_000, u64::MAX);
    assert!(r.z > 0 && r.z <= 180_000);
    assert_eq!((r.x, r.y), (0, 0));
}

#[test]
fn no_channel_means_no_meter() {
    assert!(Meter::new(0).is_none());
}

#[test]
fn a_meter_has_one_dial_per_channel() {
    let m = Meter::new(3).unwrap();
    assert_eq!(m.len(), 3);
    assert_eq!(m.rotation(0), Some(Vector3::zero()));
    assert_eq!(m.rotation(2), Some(Vector3::zero()));
    assert_eq!(m.rotation(3), None);
}

#[test]
fn a_meter_holds_while_the_store_has_nothing_to_read() {
    let mut store = SnapshotStore::new();
    let mut m = Meter::new(2).unwrap();
    assert!(!m.drive(store.try_read(), 16_000));
    assert_eq!(m.rotation(0), Some(Vector3::zero()));
    store.publish(Sample::new(0, vec![0, 1_000_000]));
    assert!(m.drive(store.try_read(), 16_000));
    assert!(m.drive(store.try_read(), 16_000));
    assert_eq!(m.rotation(0), Some(Vector3::new(0, 0, 1_263)));
    assert_eq!(m.rotation(1), Some(Vector3::new(0, 0, -1_263)));
    store.begin_publish();
    assert!(!m.drive(store.try_read(), 16_000));
    assert!(!m.drive(store.try_read(), 16_000));
    assert_eq!(m.rotation(0), Some(Vector3::new(0, 0, 1_263)));
    assert_eq!(m.rotation(1), Some(Vector3::new(0, 0, -1_263)));
    store.publish(Sample::new(0, vec![0, 1_000_000]));
    assert!(m.drive(store.try_read(), 16_000));
    assert_ne!(m.rotation(0), Some(Vector3::new(0, 0, 1_263)));
}

#[test]
fn a_meter_reads_a_shared_store_when_the_lock_is_free() {
    let shared = Mutex::new(SnapshotStore::new());
    let mut m = Meter::new(2).unwrap();
    assert!(!m.update(&shared, 16_000));
    assert_eq!(m.rotation(0), Some(Vector3::zero()));
    shared.try_lock().unwrap().publish(Sample::new(0, vec![0, 1_000_000]));
    assert!(m.update(&shared, 16_000));
    assert!(m.update(&shared, 16_000));
    assert_eq!(m.rotation(0), Some(Vector3::new(0, 0, 1_263)));
    assert_eq!(m.rotation(1), Some(Vector3::new(0, 0, -1_263)));
    assert_eq!(m.len(), 2);
}

#[test]
fn a_meter_holds_while_a_writer_has_the_lock() {
    let shared = Mutex::new(SnapshotStore::new());
    shared.try_lock().unwrap().publish(Sample::new(0, vec![0, 1_000_000]));
    let mut m = Meter::new(2).unwrap();
    m.update(&shared, 16_000);
    m.update(&shared, 16_000);
    {
        let mut writer = shared.try_lock().unwrap();
        assert!(!m.update(&shared, 16_000));
        assert!(!m.update(&shared, 16_000));
        assert_eq!(m.rotation(0), Some(Vector3::new(0, 0, 1_263)));
        assert_eq!(m.rotation(1), Some(Vector3::new(0, 0, -1_263)));
        writer.publish(Sample::new(0, vec![1_000_000, 0]));
    }
    assert!(m.update(&shared, 16_000));
    assert!(shared.try_lock().is_ok());
    let mut other = Meter::new(2).unwrap();
    other.drive(Some(&Sample::new(0, vec![0, 1_000_000])), 16_000);
    other.drive(Some(&Sample::new(0, vec![0, 1_000_000])), 16_000);
    other.drive(Some(&Sample::new(0, vec![1_000_000, 0])), 16_000);
    assert_eq!(m.rotation(0), other.rotation(0));
    assert_eq!(m.rotation(1), other.rotation(1));
}

#[test]
fn a_meter_gives_its_dials_by_index() {
    let m = Meter::new(3).unwrap();
    assert_eq!(m.dial(2).unwrap().channel(), Channel::Core(2));
    assert_eq!((m.dial(2).unwrap().column(), m.dial(2).unwrap().row()), (0, 1));
    assert!(m.dial(3).is_none());
}

#[test]
fn two_gauges_in_one_frame_are_driven_by_the_same_sample() {
    let mut store = SnapshotStore::new();
    store.publish(Sample::new(0, vec![250_000, 333_333]));
    let mut first = Dial::new(0);
    let mut second = Dial::new(1);
    for _ in 0..2 {
        let a = store.try_read().unwrap();
        let b = store.try_read().unwrap();
        assert_eq!(a.cores(), b.cores());
        let angle_a = dial_mapping().apply(a.ratio(first.channel()).unwrap());
        let angle_b = dial_mapping().apply(b.ratio(second.channel()).unwrap());
        first.update(angle_a, 16_000);
        second.update(angle_b, 16_000);
    }
    assert_eq!(first.rotation(), Vector3::new(0, 0, 631));
    assert_eq!(second.rotation(), Vector3::new(0, 0, 421));
    let mut meter = Meter::new(2).unwrap();
    meter.drive(store.try_read(), 16_000);
    meter.drive(store.try_read(), 16_000);
    assert_eq!(meter.rotation(0), Some(first.rotation()));
    assert_eq!(meter.rotation(1), Some(second.rotation()));
}

#[test]
fn a_meter_with_more_dials_than_the_sample_has_cores_holds_the_rest() {
    let mut store = SnapshotStore::new();
    store.publish(Sample::new(0, vec![0]));
    let mut m = Meter::new(2).unwrap();
    m.drive(store.try_read(), 16_000);
    m.drive(store.try_read(), 16_000);
    assert_eq!(m.rotation(0), Some(Vector3::new(0, 0, 1_263)));
    assert_eq!(m.rotation(1), Some(Vector3::zero()));
}

#[test]
fn a_meter_with_fewer_dials_than_the_sample_has_cores_shows_the_first() {
    let mut store = SnapshotStore::new();
    store.publish(Sample::new(0, vec![0, 1_000_000, 500_000]));
    let mut m = Meter::new(1).unwrap();
    m.drive(store.try_read(), 16_000);
    m.drive(store.try_read(), 16_000);
    assert_eq!(m.len(), 1);
    assert_eq!(m.rotation(0), Some(Vector3::new(0, 0, 1_263)));
}

#[test]
fn a_bar_grows_toward_its_usage() {
    let mut b = Bar::new(4);
    assert_eq!(b.id(), 4);
    assert_eq!(b.scale(), Vector3::zero());
    assert_eq!(b.frame_scale(), Vector3::new(BAR_FRAME_LENGTH, BAR_THICKNESS, 0));
    assert_eq!(b.update(500_000, 16_000), Vector3::zero());
    assert_eq!(b.update(500_000, 16_000), Vector3::new(1_263, 252, 0));
    let mut full = Bar::new(0);
    full.update(1_000_000, 16_000);
    assert_eq!(full.update(1_000_000, 16_000), Vector3::new(2_526, 252, 0));
    let mut over = Bar::new(0);
    over.update(2_000_000, 16_000);
    assert_eq!(over.update(2_000_000, 16_000), Vector3::new(5_053, 252, 0));
    for _ in 0..2_000 {
        b.update(500_000, 16_000);
    }
    assert!((b.scale().x - 500_000).abs() <= 1);
    assert!((b.scale().y - 100_000).abs() <= 1);
    assert_eq!(b.scale().z, 0);
}
