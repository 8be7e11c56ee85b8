use supervisor::config::Config;
use supervisor::config::KillOutcome;
use supervisor::config::ProcessHandle;
use supervisor::detector::DirEntry;
use supervisor::detector::SignatureCache;

fn entry(name: &str, signature: u64) -> DirEntry {
    DirEntry { name: name.as_bytes().to_vec(), signature }
}

#[test]
fn cache_records_and_returns_signatures() {
    let mut cache = SignatureCache::new();
    assert_eq!(cache.get(&b"a.txt".to_vec()), None);
    cache.set(&b"a.txt".to_vec(), 10);
    cache.set(&b"b.txt".to_vec(), 20);
    assert_eq!(cache.get(&b"a.txt".to_vec()), Some(10));
    assert_eq!(cache.get(&b"b.txt".to_vec()), Some(20));
    cache.set(&b"a.txt".to_vec(), 11);
    assert_eq!(cache.get(&b"a.txt".to_vec()), Some(11));
    assert_eq!(cache.get(&b"b.txt".to_vec()), Some(20));
}

#[test]
fn first_sight_of_a_file_is_a_silent_baseline() {
    let mut cache = SignatureCache::new();
    let entries = vec![entry("a.txt", 10), entry("b.txt", 20)];
    assert!(!Config::check_file_changes(&entries, &mut cache));
}

#[test]
fn unchanged_directory_scans_false_twice_in_a_row() {
    let mut cache = SignatureCache::new();
    let entries = vec![entry("a.txt", 10), entry("b.txt", 20)];
    assert!(!Config::check_file_changes(&entries, &mut cache));
    assert!(!Config::check_file_changes(&entries, &mut cache));
    assert!(!Config::check_file_changes(&entries, &mut cache));
}

#[test]
fn one_change_is_reported_exactly_once() {
    let mut cache = SignatureCache::new();
    let before = vec![entry("a.txt", 10), entry("b.txt", 20)];
    assert!(!Config::check_file_changes(&before, &mut cache));
    let after = vec![entry("a.txt", 10), entry("b.txt", 21)];
    assert!(Config::check_file_changes(&after, &mut cache));
    assert!(!Config::check_file_changes(&after, &mut cache));
}

#[test]
fn a_changed_file_is_noticed_by_size_or_time_signature() {
    let mut cache = SignatureCache::new();
    let before = vec![entry("app.log", 1_700_000_000)];
    assert!(!Config::check_file_changes(&before, &mut cache));
    let after = vec![entry("app.log", 1_700_000_060)];
    assert!(Config::check_file_changes(&after, &mut cache));
    assert!(!Config::check_file_changes(&after, &mut cache));
}

#[test]
fn a_burst_of_changes_settles_over_several_scans() {
    // The scan stops at the first difference, so two files changed at once
    // are absorbed one scan at a time.
    let mut cache = SignatureCache::new();
    let before = vec![entry("a.txt", 1), entry("b.txt", 2)];
    assert!(!Config::check_file_changes(&before, &mut cache));
    let after = vec![entry("a.txt", 8), entry("b.txt", 9)];
    assert!(Config::check_file_changes(&after, &mut cache));
    assert!(Config::check_file_changes(&after, &mut cache));
    assert!(!Config::check_file_changes(&after, &mut cache));
}

#[test]
fn a_new_file_alone_is_not_a_change() {
    let mut cache = SignatureCache::new();
    let before = vec![entry("a.txt", 10)];
    assert!(!Config::check_file_changes(&before, &mut cache));
    let after = vec![entry("a.txt", 10), entry("new.txt", 5)];
    assert!(!Config::check_file_changes(&after, &mut cache));
}

#[test]
fn detected_change_drives_one_stop_and_one_start() {
    // Watch-files scenario: a change is answered by one stop of the managed
    // process followed by one start.
    let mut cache = SignatureCache::new();
    let mut config = Config::new(b"/opt/app".to_vec(), b"run.exe".to_vec(), false, 0);
    config.start(ProcessHandle { id: 1 });

    let before = vec![entry("data.cfg", 100)];
    assert!(!Config::check_file_changes(&before, &mut cache));

    let after = vec![entry("data.cfg", 101)];
    assert!(Config::check_file_changes(&after, &mut cache));
    // One stop-event:
    assert!(config.stop(KillOutcome::Killed));
    assert!(!config.has_process());
    // ... followed by one start-event:
    config.start(ProcessHandle { id: 2 });
    assert_eq!(config.current_handle(), Some(ProcessHandle { id: 2 }));

    // And the detector is quiet again until the next real change.
    assert!(!Config::check_file_changes(&after, &mut cache));
}

#[test]
fn a_failed_stop_skips_the_restart_this_cycle() {
    let mut cache = SignatureCache::new();
    let mut config = Config::new(b"/opt/app".to_vec(), b"run.exe".to_vec(), false, 0);
    config.start(ProcessHandle { id: 1 });

    let before = vec![entry("data.cfg", 100)];
    assert!(!Config::check_file_changes(&before, &mut cache));
    let after = vec![entry("data.cfg", 101)];
    assert!(Config::check_file_changes(&after, &mut cache));
    // The kill fails: no restart is attempted, the old handle stays.
    assert!(!config.stop(KillOutcome::KillFailed));
    assert_eq!(config.current_handle(), Some(ProcessHandle { id: 1 }));
}
