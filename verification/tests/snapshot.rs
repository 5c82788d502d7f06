use gba_agentic_runner::snapshot::newest_zip;
use gba_agentic_runner::strmap::StrMap;

#[test]
fn newest_new_zip_is_found() {
    let mut before = StrMap::new();
    before.insert("/r/old.zip".to_string(), 10_000_000_000u128);
    let found = vec![
        ("/r/old.zip".to_string(), Some(10_000_000_000u128)),
        ("/r/new1.zip".to_string(), Some(20_000_000_000u128)),
        ("/r/new2.zip".to_string(), Some(20_000_000_000u128)),
        ("/r/early.zip".to_string(), Some(1_000_000_000u128)),
    ];
    assert_eq!(newest_zip(&before, &found, 12_000_000_000), Some("/r/new1.zip".to_string()));
}

#[test]
fn changed_zip_counts_and_unreadable_time_stops() {
    let mut before = StrMap::new();
    before.insert("/r/a.zip".to_string(), 5u128);
    let found = vec![("/r/a.zip".to_string(), Some(6u128))];
    assert_eq!(newest_zip(&before, &found, 0), Some("/r/a.zip".to_string()));
    let found = vec![("/r/a.zip".to_string(), Some(6u128)), ("/r/b.zip".to_string(), None)];
    assert_eq!(newest_zip(&before, &found, 0), None);
}
