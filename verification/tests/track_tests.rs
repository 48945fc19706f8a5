use waveview::sample::{PreviewSample, PREVIEW_SAMPLES_PER_PACKET};
use waveview::track::{CodecParams, Track};

fn params(n_frames: Option<u64>, max_frames_per_packet: Option<u64>) -> CodecParams {
    CodecParams {
        n_frames,
        max_frames_per_packet,
        channel_count: 2,
    }
}

fn sample(v: u32) -> PreviewSample {
    PreviewSample::new(v, v, v)
}

fn zero() -> PreviewSample {
    PreviewSample::zero()
}

/// Appends `n` packets' worth of identical samples to the track.
fn append_packets(track: &mut Track, n: usize, v: u32) {
    for _ in 0..n {
        let packet: Vec<PreviewSample> = (0..PREVIEW_SAMPLES_PER_PACKET)
            .map(|_| sample(v))
            .collect();
        track.append_preview_samples(&packet);
    }
}

#[test]
fn new_track_extracts_file_name() {
    let t = Track::new(String::from("music/bass_symptom.mp3"), params(None, None));
    assert_eq!(t.file_path, "music/bass_symptom.mp3");
    assert_eq!(t.file_name, "bass_symptom.mp3");
}

#[test]
fn new_track_without_separator_keeps_whole_path() {
    let t = Track::new(String::from("song.mp3"), params(None, None));
    assert_eq!(t.file_name, "song.mp3");
}

#[test]
fn new_track_nested_path() {
    let t = Track::new(String::from("a/b/c/tune.flac"), params(None, None));
    assert_eq!(t.file_name, "tune.flac");
}

#[test]
fn new_track_ignores_trailing_separator() {
    let t = Track::new(String::from("music/"), params(None, None));
    assert_eq!(t.file_name, "music");
    assert_eq!(t.file_path, "music/");
}

#[test]
fn new_track_ignores_trailing_dot_component() {
    let t = Track::new(String::from("music/albums/."), params(None, None));
    assert_eq!(t.file_name, "albums");
}

#[test]
fn progress_unknown_without_frames_per_packet() {
    let t = Track::new(String::from("x.mp3"), params(Some(1000), None));
    assert_eq!(t.progress(), None);
}

#[test]
fn progress_unknown_without_n_frames() {
    let t = Track::new(String::from("x.mp3"), params(None, Some(200)));
    assert_eq!(t.progress(), None);
}

#[test]
fn progress_scenario_two_packets_of_ten() {
    // n_frames = 1000, frames per packet = 200/2 = 100; two packets analyzed
    // (eight preview samples) is ceil(2 * 100 / 1000 * 100) = 20 percent.
    let mut t = Track::new(String::from("x.mp3"), params(Some(1000), Some(200)));
    append_packets(&mut t, 2, 7);
    assert_eq!(t.preview_len(), 8);
    assert_eq!(t.progress(), Some(20));
}

#[test]
fn progress_zero_before_any_packet() {
    let t = Track::new(String::from("x.mp3"), params(Some(1000), Some(200)));
    assert_eq!(t.progress(), Some(0));
}

#[test]
fn progress_rounds_up() {
    // One packet of 100 frames out of 30000: ceil(100/30000*100) = 1.
    let mut t = Track::new(String::from("x.mp3"), params(Some(30000), Some(200)));
    append_packets(&mut t, 1, 1);
    assert_eq!(t.progress(), Some(1));
}

#[test]
fn progress_clamped_at_100() {
    // More analyzed frames than the reported total still reads 100.
    let mut t = Track::new(String::from("x.mp3"), params(Some(100), Some(200)));
    append_packets(&mut t, 5, 1);
    assert_eq!(t.progress(), Some(100));
}

#[test]
fn progress_is_100_once_analyzed() {
    let mut t = Track::new(String::from("x.mp3"), params(None, None));
    t.mark_analyzed();
    assert_eq!(t.progress(), Some(100));
}

#[test]
fn progress_non_decreasing_as_packets_append() {
    let mut t = Track::new(String::from("x.mp3"), params(Some(1000), Some(200)));
    let mut last = t.progress().unwrap();
    for _ in 0..12 {
        append_packets(&mut t, 1, 3);
        let now = t.progress().unwrap();
        assert!(now >= last);
        last = now;
    }
    assert_eq!(last, 100);
}

#[test]
fn estimate_fallback_feeds_progress() {
    // No codec-reported packet size: the estimate (halved) is used instead.
    let mut t = Track::new(String::from("x.mp3"), params(Some(1000), None));
    t.set_estimated_samples_per_packet(200);
    append_packets(&mut t, 2, 7);
    assert_eq!(t.progress(), Some(20));
}

#[test]
fn estimate_first_write_wins() {
    let mut t = Track::new(String::from("x.mp3"), params(Some(1000), None));
    t.set_estimated_samples_per_packet(200);
    t.set_estimated_samples_per_packet(999);
    // n_packets sees frames-per-packet 100, from the first write only.
    assert_eq!(t.n_packets(), Some(10));
}

#[test]
fn codec_packet_size_beats_estimate() {
    let mut t = Track::new(String::from("x.mp3"), params(Some(1000), Some(500)));
    t.set_estimated_samples_per_packet(200);
    assert_eq!(t.n_packets(), Some(4));
}

#[test]
fn n_packets_unknown_without_packet_size() {
    let t = Track::new(String::from("x.mp3"), params(Some(1000), None));
    assert_eq!(t.n_packets(), None);
}

#[test]
fn live_preview_empty_buffer_all_zero() {
    // Empty buffer, target 10, position 0: ten zero-valued samples.
    let t = Track::new(String::from("x.mp3"), params(None, None));
    let w = t.live_preview(10, 0, 0);
    assert_eq!(w.len(), 10);
    for s in &w {
        assert_eq!(*s, zero());
    }
}

#[test]
fn live_preview_at_start_pads_left_half() {
    let mut t = Track::new(String::from("x.mp3"), params(None, None));
    let data: Vec<PreviewSample> = (1..=8).map(sample).collect();
    t.append_preview_samples(&data);
    let w = t.live_preview(6, 0, 0);
    assert_eq!(w.len(), 6);
    // First half is zero padding, the rest mirrors the front of the buffer.
    assert_eq!(&w[0..3], &[zero(), zero(), zero()]);
    assert_eq!(&w[3..6], &[sample(1), sample(2), sample(3)]);
}

#[test]
fn live_preview_is_always_target_size() {
    let mut t = Track::new(String::from("x.mp3"), params(None, None));
    let data: Vec<PreviewSample> = (1..=5).map(sample).collect();
    t.append_preview_samples(&data);
    for target in 0..12 {
        for pos in 0..6 {
            assert_eq!(t.live_preview(target, pos, 0).len(), target);
        }
    }
}

#[test]
fn live_preview_centered_window() {
    let mut t = Track::new(String::from("x.mp3"), params(None, None));
    let data: Vec<PreviewSample> = (1..=12).map(sample).collect();
    t.append_preview_samples(&data);
    // Position 1 packet = sample index 4; half of 4 is 2: samples 3..7.
    let w = t.live_preview(4, 1, 0);
    assert_eq!(w, vec![sample(3), sample(4), sample(5), sample(6)]);
}

#[test]
fn live_preview_pads_right_edge() {
    let mut t = Track::new(String::from("x.mp3"), params(None, None));
    let data: Vec<PreviewSample> = (1..=6).map(sample).collect();
    t.append_preview_samples(&data);
    // Center at sample 4, window of 6: samples 2..8, of which 7 and 8 are
    // past the buffer and come back as zero padding.
    let w = t.live_preview(6, 1, 0);
    assert_eq!(
        w,
        vec![sample(2), sample(3), sample(4), sample(5), sample(6), zero()]
    );
}

#[test]
fn live_preview_ignores_playhead_position() {
    let mut t = Track::new(String::from("x.mp3"), params(None, None));
    let data: Vec<PreviewSample> = (1..=8).map(sample).collect();
    t.append_preview_samples(&data);
    assert_eq!(t.live_preview(4, 1, 0), t.live_preview(4, 1, 3));
}

#[test]
fn preview_scales_with_progress() {
    // Half the track analyzed: half of the requested size comes back.
    let mut t = Track::new(String::from("x.mp3"), params(Some(800), Some(200)));
    append_packets(&mut t, 4, 2);
    // 4 packets * 100 frames = 400 of 800 frames; target 8 -> 4 samples.
    let p = t.preview(8);
    assert_eq!(p.len(), 4);
    assert_eq!(p, vec![sample(2), sample(2), sample(2), sample(2)]);
}

#[test]
fn preview_full_buffer_once_analyzed() {
    let mut t = Track::new(String::from("x.mp3"), params(Some(800), Some(200)));
    append_packets(&mut t, 2, 9);
    t.mark_analyzed();
    assert_eq!(t.preview(3).len(), 8);
}

#[test]
fn preview_full_buffer_without_packet_size() {
    let mut t = Track::new(String::from("x.mp3"), params(Some(800), None));
    let data: Vec<PreviewSample> = (1..=5).map(sample).collect();
    t.append_preview_samples(&data);
    assert_eq!(t.preview(100).len(), 5);
}

#[test]
fn tracks_compare_by_file_path() {
    let a = Track::new(String::from("music/a.mp3"), params(None, None));
    let b = Track::new(String::from("music/a.mp3"), params(Some(1), Some(2)));
    let c = Track::new(String::from("music/c.mp3"), params(None, None));
    assert!(a.has_same_file(&b));
    assert!(!a.has_same_file(&c));
}
