use music_manager::miner::{extract, extract_songs_from_directory};

#[test]
fn unreadable_root_yields_no_records_and_no_crash() {
    let records = extract("/definitely/not/a/real/directory");
    assert_eq!(records.len(), 0);
}

#[test]
fn extract_songs_from_directory_delegates_to_extract() {
    let records = extract_songs_from_directory("/also/not/a/real/directory");
    assert_eq!(records.len(), 0);
}
