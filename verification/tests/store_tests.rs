use cpu_gauges::sample::{Channel, Sample, RATIO_ONE};
use cpu_gauges::sampler::{Sampler, SamplerAction, SamplerEvent, DEFAULT_INTERVAL_MS};
use cpu_gauges::store::SnapshotStore;

fn sample_of(first: u32, second: u32) -> Sample {
    Sample::new((first + second) / 2, vec![first, second])
}

#[test]
fn a_sample_saturates_ratios_above_one() {
    let s = Sample::new(RATIO_ONE + 1, vec![0, RATIO_ONE, RATIO_ONE + 1, u32::MAX]);
    assert_eq!(s.aggregate(), RATIO_ONE);
    assert_eq!(s.cores(), vec![0, RATIO_ONE, RATIO_ONE, RATIO_ONE]);
    assert_eq!(s.channel_count(), 4);
}

#[test]
fn a_sample_is_read_by_channel() {
    let s = Sample::new(400_000, vec![100_000, 700_000]);
    assert_eq!(s.ratio(Channel::Aggregate), Some(400_000));
    assert_eq!(s.ratio(Channel::Core(0)), Some(100_000));
    assert_eq!(s.ratio(Channel::Core(1)), Some(700_000));
    assert_eq!(s.ratio(Channel::Core(2)), None);
    assert_eq!(s.ratio(Channel::Core(usize::MAX)), None);
}

#[test]
fn a_sample_without_cores_still_has_its_aggregate() {
    let s = Sample::new(5, Vec::new());
    assert_eq!(s.channel_count(), 0);
    assert_eq!(s.ratio(Channel::Aggregate), Some(5));
    assert_eq!(s.ratio(Channel::Core(0)), None);
    assert_eq!(s.cores(), Vec::<u32>::new());
}

#[test]
fn a_duplicate_holds_the_same_ratios() {
    let s = Sample::new(3, vec![1, 2, 3]);
    let d = s.duplicate();
    assert_eq!(d.aggregate(), 3);
    assert_eq!(d.cores(), vec![1, 2, 3]);
}

#[test]
fn a_new_store_has_nothing_to_read() {
    let store = SnapshotStore::new();
    assert!(store.try_read().is_none());
    assert_eq!(store.channel_count(), None);
}

#[test]
fn a_read_after_a_publish_gives_the_published_sample() {
    let mut store = SnapshotStore::new();
    assert!(store.publish(sample_of(10, 20)));
    let read = store.try_read().unwrap();
    assert_eq!(read.cores(), vec![10, 20]);
    assert_eq!(read.aggregate(), 15);
    assert_eq!(store.channel_count(), Some(2));
}

#[test]
fn a_read_during_a_publish_declines_and_then_sees_the_new_sample() {
    let mut store = SnapshotStore::new();
    store.publish(sample_of(10, 20));
    assert!(store.begin_publish());
    assert!(store.try_read().is_none());
    assert!(store.try_read().is_none());
    assert_eq!(store.channel_count(), Some(2));
    assert!(store.publish(sample_of(30, 40)));
    assert_eq!(store.try_read().unwrap().cores(), vec![30, 40]);
}

#[test]
fn a_second_writer_is_refused_while_a_publish_is_in_flight() {
    let mut store = SnapshotStore::new();
    assert!(store.begin_publish());
    assert!(!store.begin_publish());
    assert!(store.try_read().is_none());
    store.publish(sample_of(1, 2));
    assert!(store.begin_publish());
}

#[test]
fn a_sample_with_another_channel_count_is_refused() {
    let mut store = SnapshotStore::new();
    assert!(store.publish(sample_of(10, 20)));
    assert!(!store.publish(Sample::new(0, vec![1, 2, 3])));
    assert_eq!(store.try_read().unwrap().cores(), vec![10, 20]);
    assert!(!store.publish(Sample::new(0, Vec::new())));
    assert_eq!(store.channel_count(), Some(2));
    store.begin_publish();
    assert!(!store.publish(Sample::new(0, vec![1])));
    assert_eq!(store.try_read().unwrap().cores(), vec![10, 20]);
}

#[test]
fn readers_see_each_publish_once_and_in_order() {
    let mut store = SnapshotStore::new();
    let mut sampler = Sampler::new(128);
    let mut seen: Vec<u32> = Vec::new();
    let mut last: Option<u32> = None;
    let mut clock_ms: u64 = 0;
    let mut next_publish_ms: u64 = 0;
    let mut round: u32 = 0;
    assert_eq!(sampler.step(&mut store, SamplerEvent::Started), SamplerAction::Refresh);
    while clock_ms < 128 * 5 {
        if clock_ms == next_publish_ms {
            round += 1;
            let action = sampler.step(&mut store, SamplerEvent::Refreshed(sample_of(round, round)));
            assert_eq!(action, SamplerAction::Sleep(128));
            next_publish_ms += 128;
            assert_eq!(sampler.step(&mut store, SamplerEvent::Woke), SamplerAction::Refresh);
        }
        let read = store.try_read().unwrap().cores()[0];
        if last != Some(read) {
            seen.push(read);
            last = Some(read);
        }
        clock_ms += 16;
    }
    assert_eq!(seen, vec![1, 2, 3, 4, 5]);
}

#[test]
fn eight_reads_between_two_publishes_agree() {
    let mut store = SnapshotStore::new();
    store.publish(sample_of(111, 222));
    for _ in 0..8 {
        assert_eq!(store.try_read().unwrap().cores(), vec![111, 222]);
    }
    store.publish(sample_of(333, 444));
    for _ in 0..8 {
        assert_eq!(store.try_read().unwrap().cores(), vec![333, 444]);
    }
}

#[test]
fn a_failed_refresh_leaves_the_previous_sample_readable() {
    let mut store = SnapshotStore::new();
    let mut sampler = Sampler::new(DEFAULT_INTERVAL_MS);
    assert_eq!(
        sampler.step(&mut store, SamplerEvent::Refreshed(sample_of(10, 20))),
        SamplerAction::Sleep(128)
    );
    assert_eq!(sampler.step(&mut store, SamplerEvent::Woke), SamplerAction::Refresh);
    assert_eq!(sampler.step(&mut store, SamplerEvent::RefreshFailed), SamplerAction::Sleep(128));
    assert_eq!(store.try_read().unwrap().cores(), vec![10, 20]);
    assert!(!sampler.is_stopped());
    assert_eq!(sampler.step(&mut store, SamplerEvent::Woke), SamplerAction::Refresh);
    assert_eq!(
        sampler.step(&mut store, SamplerEvent::Refreshed(sample_of(30, 40))),
        SamplerAction::Sleep(128)
    );
    assert_eq!(store.try_read().unwrap().cores(), vec![30, 40]);
}

#[test]
fn a_failed_first_refresh_leaves_the_store_empty() {
    let mut store = SnapshotStore::new();
    let mut sampler = Sampler::new(150);
    assert_eq!(sampler.step(&mut store, SamplerEvent::Started), SamplerAction::Refresh);
    assert_eq!(sampler.step(&mut store, SamplerEvent::RefreshFailed), SamplerAction::Sleep(150));
    assert!(store.try_read().is_none());
}

#[test]
fn the_sampler_ends_a_publish_in_flight() {
    let mut store = SnapshotStore::new();
    let mut sampler = Sampler::new(128);
    store.begin_publish();
    sampler.step(&mut store, SamplerEvent::Refreshed(sample_of(1, 2)));
    assert_eq!(store.try_read().unwrap().cores(), vec![1, 2]);
}

#[test]
fn a_sampler_that_was_shut_down_stops_for_good() {
    let mut store = SnapshotStore::new();
    let mut sampler = Sampler::new(128);
    sampler.step(&mut store, SamplerEvent::Refreshed(sample_of(10, 20)));
    assert_eq!(sampler.step(&mut store, SamplerEvent::ShutdownRequested), SamplerAction::Stop);
    assert!(sampler.is_stopped());
    assert_eq!(sampler.step(&mut store, SamplerEvent::Woke), SamplerAction::Stop);
    assert_eq!(sampler.step(&mut store, SamplerEvent::Started), SamplerAction::Stop);
    assert_eq!(sampler.step(&mut store, SamplerEvent::RefreshFailed), SamplerAction::Stop);
    assert_eq!(
        sampler.step(&mut store, SamplerEvent::Refreshed(sample_of(30, 40))),
        SamplerAction::Stop
    );
    assert_eq!(store.try_read().unwrap().cores(), vec![10, 20]);
    assert_eq!(sampler.interval_ms(), 128);
}
