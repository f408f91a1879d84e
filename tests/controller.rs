use audio_playlist::controller::{Controller, PlayerError, SinkAction};
use audio_playlist::track::AudioTrack;

fn track(path: &str) -> AudioTrack {
    AudioTrack::from_path(path).unwrap()
}

fn abc() -> Controller {
    let mut c = Controller::new();
    c.load(track("/m/a.mp3"));
    c.load(track("/m/b.mp3"));
    c.load(track("/m/c.mp3"));
    c
}

fn current_path(c: &Controller) -> Option<String> {
    c.current_track().map(|t| t.get_full_path().clone())
}

#[test]
fn first_load_sets_current() {
    let mut c = Controller::new();
    assert!(c.load(track("/m/a.mp3")));
    assert_eq!(c.playlist().len(), 1);
    assert_eq!(current_path(&c), Some("/m/a.mp3".to_string()));
    assert_eq!(c.current_index(), Some(0));
}

#[test]
fn later_loads_keep_current() {
    let mut c = abc();
    assert!(!c.load(track("/m/b.mp3")));
    assert_eq!(c.playlist().len(), 3);
    assert_eq!(current_path(&c), Some("/m/a.mp3".to_string()));
}

#[test]
fn start_without_track_fails() {
    let c = Controller::new();
    assert_eq!(c.start(true), Err(PlayerError::NoCurrentTrack));
    assert_eq!(c.start(false), Err(PlayerError::NoCurrentTrack));
    assert_eq!(c.start_over(), Err(PlayerError::NoCurrentTrack));
    assert_eq!(c.current_index(), None);
    assert!(!c.is_looping());
    assert_eq!(c.playlist().len(), 0);
}

#[test]
fn start_enqueues_when_sink_empty() {
    let c = abc();
    assert_eq!(c.start(true), Ok(vec![SinkAction::Enqueue(0), SinkAction::Play]));
}

#[test]
fn start_resumes_when_sink_holds_audio() {
    let c = abc();
    assert_eq!(c.start(false), Ok(vec![SinkAction::Play]));
}

#[test]
fn start_over_twice_gives_same_restart() {
    let mut c = abc();
    let step = c.skip("b.mp3").unwrap();
    c.commit(&step);
    let first = c.start_over();
    let second = c.start_over();
    let expected = vec![SinkAction::Stop, SinkAction::Enqueue(1), SinkAction::Play];
    assert_eq!(first, Ok(expected.clone()));
    assert_eq!(second, Ok(expected));
    assert_eq!(current_path(&c), Some("/m/b.mp3".to_string()));
}

#[test]
fn auto_advance_moves_to_next() {
    let mut c = abc();
    let step = c.skip("b.mp3").unwrap();
    c.commit(&step);
    let adv = c.auto_advance(true);
    assert_eq!(adv.actions, vec![SinkAction::Enqueue(2)]);
    assert_eq!(adv.select, Some(2));
    c.commit(&adv);
    assert_eq!(current_path(&c), Some("/m/c.mp3".to_string()));
}

#[test]
fn auto_advance_wraps_to_first() {
    let mut c = abc();
    let step = c.skip("c.mp3").unwrap();
    c.commit(&step);
    let adv = c.auto_advance(true);
    assert_eq!(adv.actions, vec![SinkAction::Enqueue(0)]);
    c.commit(&adv);
    assert_eq!(current_path(&c), Some("/m/a.mp3".to_string()));
}

#[test]
fn auto_advance_waits_while_sink_plays() {
    let c = abc();
    let adv = c.auto_advance(false);
    assert!(adv.actions.is_empty());
    assert_eq!(adv.select, None);
}

#[test]
fn loop_suppresses_auto_advance() {
    let mut c = abc();
    c.set_loop(true);
    assert!(c.is_looping());
    let adv = c.auto_advance(true);
    assert!(adv.actions.is_empty());
    assert_eq!(adv.select, None);
    c.commit(&adv);
    assert_eq!(current_path(&c), Some("/m/a.mp3".to_string()));
    c.set_loop(false);
    assert_eq!(c.auto_advance(true).select, Some(1));
}

#[test]
fn auto_advance_without_track_does_nothing() {
    let c = Controller::new();
    let adv = c.auto_advance(true);
    assert!(adv.actions.is_empty());
    assert_eq!(adv.select, None);
}

#[test]
fn pause_needs_current_track() {
    assert!(Controller::new().pause().is_empty());
    assert_eq!(abc().pause(), vec![SinkAction::Pause]);
}

#[test]
fn skip_to_named_track() {
    let mut c = abc();
    let step = c.skip("c.mp3").unwrap();
    assert_eq!(step.actions, vec![SinkAction::Stop, SinkAction::Enqueue(2), SinkAction::Play]);
    assert_eq!(step.select, Some(2));
    assert_eq!(current_path(&c), Some("/m/a.mp3".to_string()));
    c.commit(&step);
    assert_eq!(current_path(&c), Some("/m/c.mp3".to_string()));
}

#[test]
fn skip_to_absent_track_fails() {
    let c = abc();
    assert!(matches!(c.skip("z.mp3"), Err(PlayerError::NotFound)));
}

#[test]
fn remove_playing_current_stops_sink() {
    let mut c = abc();
    assert_eq!(c.remove("a.mp3", false), Ok(vec![SinkAction::Stop]));
    assert_eq!(c.playlist().len(), 2);
    assert_eq!(current_path(&c), Some("/m/b.mp3".to_string()));
}

#[test]
fn remove_idle_current_does_not_stop() {
    let mut c = abc();
    assert_eq!(c.remove("a.mp3", true), Ok(vec![]));
    assert_eq!(current_path(&c), Some("/m/b.mp3".to_string()));
}

#[test]
fn remove_other_track_keeps_playing() {
    let mut c = abc();
    assert_eq!(c.remove("c.mp3", false), Ok(vec![]));
    assert_eq!(current_path(&c), Some("/m/a.mp3".to_string()));
}

#[test]
fn remove_absent_track_fails() {
    let mut c = abc();
    assert_eq!(c.remove("z.mp3", false), Err(PlayerError::NotFound));
    assert_eq!(c.playlist().len(), 3);
}

#[test]
fn remove_all_returns_to_idle() {
    let mut c = Controller::new();
    c.load(track("/m/a.mp3"));
    assert_eq!(c.remove("a.mp3", true), Ok(vec![]));
    assert_eq!(current_path(&c), None);
    assert_eq!(c.start(true), Err(PlayerError::NoCurrentTrack));
}
