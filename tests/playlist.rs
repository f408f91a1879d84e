use audio_playlist::playlist::Playlist;
use audio_playlist::track::AudioTrack;

fn track(path: &str) -> AudioTrack {
    AudioTrack::from_path(path).unwrap()
}

fn abc() -> Playlist {
    let mut p = Playlist::new();
    assert!(p.insert(track("/m/a.mp3")));
    assert!(p.insert(track("/m/b.mp3")));
    assert!(p.insert(track("/m/c.mp3")));
    p
}

fn current(p: &Playlist) -> Option<String> {
    p.current_id().cloned()
}

#[test]
fn empty_playlist_has_no_current() {
    let p = Playlist::new();
    assert!(p.is_empty());
    assert_eq!(p.len(), 0);
    assert_eq!(current(&p), None);
    assert!(!p.contains("/m/a.mp3"));
    assert!(p.find("/m/a.mp3").is_none());
}

#[test]
fn duplicate_insert_keeps_length() {
    let mut p = abc();
    assert!(!p.insert(track("/m/b.mp3")));
    assert_eq!(p.len(), 3);
    assert_eq!(current(&p), Some("/m/a.mp3".to_string()));
}

#[test]
fn first_insert_becomes_current_and_order_kept() {
    let p = abc();
    assert_eq!(current(&p), Some("/m/a.mp3".to_string()));
    assert_eq!(p.get(0).get_full_path(), "/m/a.mp3");
    assert_eq!(p.get(1).get_full_path(), "/m/b.mp3");
    assert_eq!(p.get(2).get_full_path(), "/m/c.mp3");
    assert_eq!(p.position("/m/c.mp3"), Some(2));
    assert!(p.contains("/m/b.mp3"));
    assert_eq!(p.find("/m/b.mp3").unwrap().get_base_name(), "b.mp3");
}

#[test]
fn next_after_wraps_around() {
    let p = abc();
    assert_eq!(p.next_after("/m/a.mp3").get_full_path(), "/m/b.mp3");
    assert_eq!(p.next_after("/m/b.mp3").get_full_path(), "/m/c.mp3");
    assert_eq!(p.next_after("/m/c.mp3").get_full_path(), "/m/a.mp3");
}

#[test]
fn next_after_single_track_is_itself() {
    let mut p = Playlist::new();
    p.insert(track("/m/a.mp3"));
    assert_eq!(p.next_after("/m/a.mp3").get_full_path(), "/m/a.mp3");
}

#[test]
fn remove_current_moves_to_next() {
    let mut p = abc();
    assert!(p.set_current("/m/b.mp3"));
    assert!(p.remove("/m/b.mp3"));
    assert_eq!(p.len(), 2);
    assert_eq!(current(&p), Some("/m/c.mp3".to_string()));
    assert!(!p.contains("/m/b.mp3"));
}

#[test]
fn remove_last_current_wraps_to_first() {
    let mut p = abc();
    p.set_current("/m/c.mp3");
    assert!(p.remove("/m/c.mp3"));
    assert_eq!(current(&p), Some("/m/a.mp3".to_string()));
}

#[test]
fn remove_other_keeps_current() {
    let mut p = abc();
    p.set_current("/m/c.mp3");
    assert!(p.remove("/m/a.mp3"));
    assert_eq!(current(&p), Some("/m/c.mp3".to_string()));
    assert_eq!(p.get(0).get_full_path(), "/m/b.mp3");
}

#[test]
fn remove_only_track_unsets_current() {
    let mut p = Playlist::new();
    p.insert(track("/m/a.mp3"));
    assert!(p.remove("/m/a.mp3"));
    assert!(p.is_empty());
    assert_eq!(current(&p), None);
}

#[test]
fn remove_absent_changes_nothing() {
    let mut p = abc();
    assert!(!p.remove("/m/z.mp3"));
    assert_eq!(p.len(), 3);
    assert_eq!(current(&p), Some("/m/a.mp3".to_string()));
}

#[test]
fn set_current_absent_changes_nothing() {
    let mut p = abc();
    assert!(!p.set_current("/m/z.mp3"));
    assert_eq!(current(&p), Some("/m/a.mp3".to_string()));
}

#[test]
fn position_by_name_finds_first() {
    let mut p = abc();
    p.insert(track("/other/b.mp3"));
    assert_eq!(p.position_by_name("b.mp3"), Some(1));
    assert_eq!(p.position_by_name("z.mp3"), None);
}
