use audio_playlist::track::{get_base_name, AudioTrack};

#[test]
fn base_name_is_final_segment() {
    assert_eq!(get_base_name("/home/user/music/song.mp3"), "song.mp3");
    assert_eq!(get_base_name("song.wav"), "song.wav");
}

#[test]
fn track_keeps_path_and_name() {
    let t = AudioTrack::from_path("/music/a.mp3").unwrap();
    assert_eq!(t.get_full_path(), "/music/a.mp3");
    assert_eq!(t.get_base_name(), "a.mp3");
}

#[test]
fn path_without_final_segment_gives_no_track() {
    assert!(AudioTrack::from_path("/").is_none());
    assert!(AudioTrack::from_path("/music/..").is_none());
    assert!(AudioTrack::from_path("").is_none());
}

#[test]
fn tracks_equal_by_path_only() {
    let a = AudioTrack::from_path("/music/a.mp3").unwrap();
    let a2 = AudioTrack::from_path("/music/a.mp3").unwrap();
    let other = AudioTrack::from_path("/other/a.mp3").unwrap();
    assert!(a == a2);
    assert!(a != other);
    assert_eq!(a.get_base_name(), other.get_base_name());
}

#[test]
fn clone_keeps_identity_and_name() {
    let a = AudioTrack::from_path("/music/a.mp3").unwrap();
    let b = a.clone();
    assert!(a == b);
    assert_eq!(b.get_full_path(), "/music/a.mp3");
    assert_eq!(b.get_base_name(), "a.mp3");
}
