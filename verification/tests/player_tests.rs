use waveview::analyzer::downsample;
use waveview::player::{Event, Message, Player, PlayerAction, PlayerState};
use waveview::preview_buffer::PreviewBuffer;
use waveview::sample::{PreviewSample, PREVIEW_SAMPLES_PER_PACKET};
use waveview::track::{CodecParams, Track};

fn sample(v: u32) -> PreviewSample {
    PreviewSample::new(v, v, v)
}

fn track(path: &str) -> Track {
    Track::new(
        String::from(path),
        CodecParams {
            n_frames: Some(1000),
            max_frames_per_packet: Some(200),
            channel_count: 2,
        },
    )
}

#[test]
fn new_player_is_idle() {
    let p = Player::new();
    assert_eq!(p.state(), PlayerState::Idle);
    assert_eq!(p.position(), 0);
    assert!(p.current_track().is_none());
}

#[test]
fn toggle_is_noop_while_idle() {
    let mut p = Player::new();
    let a = p.handle_message(Message::TogglePlay);
    assert!(matches!(a, PlayerAction::Stay));
    assert_eq!(p.state(), PlayerState::Idle);
}

#[test]
fn load_moves_to_loading_and_starts_load() {
    let mut p = Player::new();
    let a = p.handle_message(Message::Load(String::from("music/a.mp3")));
    assert_eq!(p.state(), PlayerState::Loading);
    match a {
        PlayerAction::StartLoad(path) => assert_eq!(path, "music/a.mp3"),
        PlayerAction::Stay => panic!("load must start a load"),
    }
}

#[test]
fn load_success_autoplays_fresh_track() {
    let mut p = Player::new();
    p.handle_message(Message::Load(String::from("music/a.mp3")));
    p.on_load_success(track("music/a.mp3"));
    assert_eq!(p.state(), PlayerState::Playing);
    assert_eq!(p.position(), 0);
    let t = p.current_track().unwrap();
    assert_eq!(t.file_name, "a.mp3");
    assert_eq!(t.preview_len(), 0);
}

#[test]
fn load_failure_reports_and_goes_idle() {
    let mut p = Player::new();
    p.handle_message(Message::Load(String::from("missing.mp3")));
    let e = p.on_load_failure(String::from("unsupported codec"));
    assert_eq!(p.state(), PlayerState::Idle);
    assert!(p.current_track().is_none());
    match e {
        Event::LoadFailed(reason) => assert_eq!(reason, "unsupported codec"),
        _ => panic!("a failed load must report LoadFailed"),
    }
}

#[test]
fn toggle_swaps_playing_and_paused() {
    let mut p = Player::new();
    p.handle_message(Message::Load(String::from("music/a.mp3")));
    p.on_load_success(track("music/a.mp3"));
    p.handle_message(Message::TogglePlay);
    assert_eq!(p.state(), PlayerState::Paused);
    p.handle_message(Message::TogglePlay);
    assert_eq!(p.state(), PlayerState::Playing);
}

#[test]
fn decode_step_appends_and_advances() {
    let mut p = Player::new();
    p.handle_message(Message::Load(String::from("music/a.mp3")));
    p.on_load_success(track("music/a.mp3"));
    let frames: Vec<PreviewSample> = (1..=8).map(sample).collect();
    let e = p.decode_step(&downsample(&frames));
    assert!(matches!(e, Event::PlayedPackage(1)));
    assert_eq!(p.position(), 1);
    let t = p.current_track().unwrap();
    assert_eq!(t.preview_len(), PREVIEW_SAMPLES_PER_PACKET);
    // The appended samples are the packet's downsampled form.
    assert_eq!(t.live_preview(2, 0, 0)[1], downsample(&frames)[0]);
}

#[test]
fn end_of_stream_marks_analyzed_and_goes_idle() {
    let mut p = Player::new();
    p.handle_message(Message::Load(String::from("music/a.mp3")));
    p.on_load_success(track("music/a.mp3"));
    let frames: Vec<PreviewSample> = (1..=4).map(sample).collect();
    p.decode_step(&downsample(&frames));
    let e = p.on_end_of_stream();
    assert!(matches!(e, Event::AnalysisComplete));
    assert_eq!(p.state(), PlayerState::Idle);
    let t = p.current_track().unwrap();
    assert!(t.is_analyzed());
    assert_eq!(t.progress(), Some(100));
    assert_eq!(t.preview_len(), PREVIEW_SAMPLES_PER_PACKET);
}

#[test]
fn new_load_replaces_old_track() {
    let mut p = Player::new();
    p.handle_message(Message::Load(String::from("music/a.mp3")));
    p.on_load_success(track("music/a.mp3"));
    let frames: Vec<PreviewSample> = (1..=4).map(sample).collect();
    p.decode_step(&downsample(&frames));
    assert_eq!(p.position(), 1);
    p.handle_message(Message::Load(String::from("music/b.mp3")));
    p.on_load_success(track("music/b.mp3"));
    assert_eq!(p.position(), 0);
    let t = p.current_track().unwrap();
    assert_eq!(t.file_name, "b.mp3");
    assert_eq!(t.preview_len(), 0);
}

#[test]
fn downsample_returns_fixed_count() {
    for n in [0usize, 1, 3, 4, 7, 64, 1000] {
        let frames: Vec<PreviewSample> = (0..n).map(|i| sample(i as u32)).collect();
        assert_eq!(downsample(&frames).len(), PREVIEW_SAMPLES_PER_PACKET);
    }
}

#[test]
fn downsample_decimates_evenly() {
    let frames: Vec<PreviewSample> = (0..8).map(|i| sample(i as u32)).collect();
    let out = downsample(&frames);
    assert_eq!(out, vec![sample(0), sample(2), sample(4), sample(6)]);
}

#[test]
fn downsample_of_empty_packet_is_zero() {
    let out = downsample(&Vec::new());
    for s in &out {
        assert_eq!(*s, PreviewSample::zero());
    }
}

#[test]
fn downsample_is_pure() {
    let frames: Vec<PreviewSample> = (0..7).map(|i| sample(i as u32)).collect();
    assert_eq!(downsample(&frames), downsample(&frames));
}

#[test]
fn preview_buffer_appends_in_order() {
    let mut b = PreviewBuffer::new();
    assert_eq!(b.len(), 0);
    b.append(&vec![sample(1), sample(2)]);
    b.append(&vec![sample(3)]);
    assert_eq!(b.len(), 3);
    assert_eq!(b.snapshot(), vec![sample(1), sample(2), sample(3)]);
    assert_eq!(b.get(1), sample(2));
}

#[test]
fn preview_buffer_snapshot_is_a_copy() {
    let mut b = PreviewBuffer::new();
    b.append(&vec![sample(1)]);
    let snap = b.snapshot();
    b.append(&vec![sample(2)]);
    assert_eq!(snap.len(), 1);
    assert_eq!(b.len(), 2);
}

#[test]
fn preview_buffer_default_is_empty() {
    let b = PreviewBuffer::default();
    assert_eq!(b.len(), 0);
}
