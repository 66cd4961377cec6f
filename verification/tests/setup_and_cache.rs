use scheduler_bot::cache::SchedulerCache;
use scheduler_bot::refresh::UpdateCounter;
use scheduler_bot::setup::{scheduler_info_params, SetupError};

#[test]
fn setup_row_keeps_the_identifiers() {
    assert_eq!(scheduler_info_params(1, 2, 3, 4), Ok((1, 2, 3, 4)));
    assert_eq!(
        scheduler_info_params(1175876059867131914, 5, 6, 7),
        Ok((1175876059867131914, 5, 6, 7))
    );
}

#[test]
fn setup_row_reads_large_identifiers_as_signed() {
    assert_eq!(scheduler_info_params(u64::MAX, 1, 1, 1), Ok((-1, 1, 1, 1)));
    assert_eq!(scheduler_info_params(1 << 63, 1, 1, 1), Ok((i64::MIN, 1, 1, 1)));
}

#[test]
fn setup_refuses_zero_identifiers() {
    assert_eq!(scheduler_info_params(0, 2, 3, 4), Err(SetupError::ZeroId));
    assert_eq!(scheduler_info_params(1, 0, 3, 4), Err(SetupError::ZeroId));
    assert_eq!(scheduler_info_params(1, 2, 0, 4), Err(SetupError::ZeroId));
    assert_eq!(scheduler_info_params(1, 2, 3, 0), Err(SetupError::ZeroId));
    assert_eq!(SetupError::ZeroId.message(), "One or more IDs are zero.");
}

#[test]
fn cache_lookup_gives_last_row() {
    let cache = SchedulerCache::new(vec![(10, 100, 1000), (20, 200, 2000), (10, 101, 1001)]);
    assert_eq!(cache.get(10), Some(&(101, 1001)));
    assert_eq!(cache.get(20), Some(&(200, 2000)));
    assert_eq!(cache.get(30), None);
}

#[test]
fn cache_reads_negative_identifiers_as_unsigned() {
    let cache = SchedulerCache::new(vec![(-1, -2, -3)]);
    assert_eq!(cache.get(u64::MAX), Some(&(u64::MAX - 1, u64::MAX - 2)));
}

#[test]
fn empty_cache_and_update() {
    let mut cache = SchedulerCache::new(vec![]);
    assert_eq!(cache.get(1), None);
    cache.update();
    assert_eq!(cache.get(1), None);
    let mut cache = SchedulerCache::new(vec![(5, 6, 7)]);
    cache.update();
    assert_eq!(cache.get(5), Some(&(6, 7)));
}

#[test]
fn counter_saturates_at_two() {
    let mut counter = UpdateCounter::new();
    assert_eq!(counter.pending(), 0);
    counter.record_change();
    assert_eq!(counter.pending(), 1);
    counter.record_change();
    assert_eq!(counter.pending(), 2);
    counter.record_change();
    assert_eq!(counter.pending(), 2);
}

#[test]
fn change_leads_to_one_redraw() {
    let mut counter = UpdateCounter::new();
    assert!(!counter.tick());
    counter.record_change();
    assert!(counter.tick());
    assert_eq!(counter.pending(), 0);
    assert!(!counter.tick());
    counter.record_change();
    counter.record_change();
    counter.record_change();
    assert!(counter.tick());
    assert!(!counter.tick());
}

#[test]
fn setup_is_tracked_at_once() {
    let mut cache = SchedulerCache::new(vec![(10, 100, 1000)]);
    assert_eq!(cache.get(20), None);
    cache.record_setup(20, 200, 2000);
    assert_eq!(cache.get(20), Some(&(200, 2000)));
    cache.record_setup(10, 101, 1001);
    assert_eq!(cache.get(10), Some(&(101, 1001)));
    // Reloading from the stored rows gives the same.
    let reloaded = SchedulerCache::new(vec![(10, 100, 1000), (20, 200, 2000), (10, 101, 1001)]);
    assert_eq!(reloaded.get(10), cache.get(10));
    assert_eq!(reloaded.get(20), cache.get(20));
}
