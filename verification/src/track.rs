//! Per-track state: file identity, codec parameters, the preview buffer,
//! and the derived views a renderer asks for (analysis progress and
//! fixed-width preview windows).

use vstd::prelude::*;

use vstd::arithmetic::div_mod::{
    lemma_div_is_ordered, lemma_div_multiples_vanish, lemma_div_of0, lemma_div_pos_is_pos,
    lemma_fundamental_div_mod, lemma_hoist_over_denominator,
    lemma_mod_division_less_than_divisor, lemma_multiply_divide_lt,
};
use vstd::arithmetic::mul::{
    lemma_mul_inequality, lemma_mul_strict_inequality, lemma_mul_upper_bound,
};

use crate::preview_buffer::PreviewBuffer;
use crate::sample::{PreviewSample, PREVIEW_SAMPLES_PER_PACKET};

verus! {

/// `ceil(analyzed_frames / n_frames * 100)`, over the integers.
pub open spec fn ceil_percent(analyzed_frames: int, n_frames: int) -> int
    recommends
        n_frames > 0,
{
    (analyzed_frames * 100 + n_frames - 1) / n_frames
}

/// The analysis percentage for `analyzed_frames` out of `n_frames` total:
/// the ceiling of the frame ratio times 100, clamped to `[0, 100]`. A track
/// without any playable frames counts as fully analyzed as soon as anything
/// was analyzed.
pub open spec fn progress_pct(analyzed_frames: int, n_frames: int) -> int {
    if n_frames <= 0 {
        if analyzed_frames == 0 {
            0
        } else {
            100
        }
    } else if ceil_percent(analyzed_frames, n_frames) >= 100 {
        100
    } else {
        ceil_percent(analyzed_frames, n_frames)
    }
}

/// The percentage is always within `[0, 100]`.
pub proof fn lemma_progress_pct_bounds(analyzed_frames: int, n_frames: int)
    requires
        0 <= analyzed_frames,
    ensures
        0 <= progress_pct(analyzed_frames, n_frames) <= 100,
{
    if n_frames > 0 && ceil_percent(analyzed_frames, n_frames) < 100 {
        lemma_div_pos_is_pos(analyzed_frames * 100 + n_frames - 1, n_frames);
        assert(analyzed_frames * 100 >= 0) by {
            lemma_mul_inequality(0, analyzed_frames, 100);
        }
    }
}

/// Analysis progress never decreases: more analyzed frames give an equal
/// or larger percentage, for the same total frame count.
pub proof fn lemma_progress_pct_monotonic(frames1: int, frames2: int, n_frames: int)
    requires
        0 <= frames1 <= frames2,
    ensures
        progress_pct(frames1, n_frames) <= progress_pct(frames2, n_frames),
{
    lemma_progress_pct_bounds(frames1, n_frames);
    lemma_progress_pct_bounds(frames2, n_frames);
    if n_frames > 0 {
        assert(frames1 * 100 <= frames2 * 100) by {
            lemma_mul_inequality(frames1, frames2, 100);
        }
        lemma_div_is_ordered(
            frames1 * 100 + n_frames - 1,
            frames2 * 100 + n_frames - 1,
            n_frames,
        );
    }
}

/// Codec parameters the probe collaborator supplies for one file:
/// total frame count and maximum frames per packet where the codec
/// reports them, and the channel count.
#[derive(Clone, Copy, Debug)]
pub struct CodecParams {
    /// Total playable length of the track, in frames, if known.
    pub n_frames: Option<u64>,
    /// Largest number of frames a single packet may hold, if known.
    pub max_frames_per_packet: Option<u64>,
    /// Number of audio channels.
    pub channel_count: u32,
}

/// Per-track metadata (tags, artwork and the like live outside the core).
#[derive(Debug)]
pub struct TrackMeta {}

impl Default for TrackMeta {
    fn default() -> (r: TrackMeta)
        ensures
            r == (TrackMeta {}),
    {
        TrackMeta {}
    }
}

/// Index just past the last path separator of `s`; `0` when `s` holds none.
pub open spec fn file_name_start(s: Seq<char>) -> int
    decreases s.len(),
{
    if s.len() == 0 {
        0
    } else if s[s.len() - 1] == '/' {
        s.len() as int
    } else {
        file_name_start(s.drop_last())
    }
}

/// Index just past the file name of the path `s`: trailing separators, and
/// the `.` components standing among them, name no file and are skipped, as
/// `Path::file_name` skips them (`"music/"` and `"music/."` both name
/// `"music"`).
pub open spec fn file_name_end(s: Seq<char>) -> int
    decreases s.len(),
{
    if s.len() == 0 {
        0
    } else if s[s.len() - 1] == '/' {
        file_name_end(s.drop_last())
    } else if s[s.len() - 1] == '.' && (s.len() == 1 || s[s.len() - 2] == '/') {
        file_name_end(s.drop_last())
    } else {
        s.len() as int
    }
}

/// The final path component of `s`: what stands between the last separator
/// and the end, once trailing separators and `.` components are skipped.
pub open spec fn file_name_spec(s: Seq<char>) -> Seq<char> {
    let t = s.take(file_name_end(s));
    t.subrange(file_name_start(t), t.len() as int)
}

/// Whether the path names a file at all: after trailing separators and `.`
/// components are skipped, a final component remains, and it is not the
/// parent-directory component. `Track::new` asks for such a path.
pub open spec fn has_file_name(s: Seq<char>) -> bool {
    file_name_spec(s).len() > 0 && file_name_spec(s) != seq!['.', '.']
}

/// Writes `Some(v)` only into an unset estimate: the first write wins.
pub open spec fn set_estimate_model(est: Option<usize>, v: usize) -> Option<usize> {
    if est is None {
        Some(v)
    } else {
        est
    }
}

/// Setting the estimate twice, with any two values: the second write has no
/// effect, and the estimate keeps what the first write put there.
pub proof fn lemma_estimate_first_write_wins(est: Option<usize>, v1: usize, v2: usize)
    ensures
        set_estimate_model(set_estimate_model(est, v1), v2) == set_estimate_model(est, v1),
{
}

/// The mathematical content of a `Track`.
pub ghost struct TrackView {
    /// Track metadata.
    pub meta: TrackMeta,
    /// The file path, as characters.
    pub file_path: Seq<char>,
    /// The file name, as characters.
    pub file_name: Seq<char>,
    /// Codec parameters reported by the probe.
    pub codec_params: CodecParams,
    /// The preview buffer as a sequence of samples.
    pub buffer: Seq<PreviewSample>,
    /// The write-once samples-per-packet estimate.
    pub estimate: Option<usize>,
    /// Whether analysis of the whole file has finished.
    pub analyzed: bool,
}

impl TrackView {
    /// Everything of the track but the preview buffer, the estimate and the
    /// completion flag, unchanged between two states.
    pub open spec fn same_identity(self, other: TrackView) -> bool {
        &&& self.meta == other.meta
        &&& self.file_path == other.file_path
        &&& self.file_name == other.file_name
        &&& self.codec_params == other.codec_params
    }

    /// Frames per packet used by the progress math: the codec-reported
    /// maximum where present, else the externally set estimate, halved per
    /// the codec's sample-to-frame convention; nothing when neither exists.
    pub open spec fn frames_per_packet(self) -> Option<u64> {
        match self.codec_params.max_frames_per_packet {
            Some(x) => Some(x / 2),
            None => match self.estimate {
                Some(e) => Some((e as u64) / 2),
                None => None,
            },
        }
    }

    /// Number of whole packets analyzed so far: each packet contributes
    /// exactly `PREVIEW_SAMPLES_PER_PACKET` samples to the buffer.
    pub open spec fn analyzed_packets(self) -> int {
        self.buffer.len() as int / (PREVIEW_SAMPLES_PER_PACKET as int)
    }

    /// Number of frames analyzed so far, for a known frames-per-packet value.
    pub open spec fn analyzed_frames(self) -> int
        recommends
            self.frames_per_packet() is Some,
    {
        self.analyzed_packets() * (self.frames_per_packet()->Some_0 as int)
    }

    /// What `Track::progress` returns: 100 once analyzed; the clamped
    /// ceiling percentage while both a frames-per-packet value and the
    /// total frame count are known; nothing otherwise.
    pub open spec fn progress_spec(self) -> Option<u8> {
        if self.analyzed {
            Some(100u8)
        } else if self.frames_per_packet() is Some && self.codec_params.n_frames is Some {
            Some(
                progress_pct(
                    self.analyzed_frames(),
                    self.codec_params.n_frames->Some_0 as int,
                ) as u8,
            )
        } else {
            None
        }
    }

    /// What `Track::preview` returns: the whole buffer once the track is
    /// analyzed (or while the scaling inputs are missing or degenerate);
    /// otherwise a prefix of the buffer scaled to the analyzed share of the
    /// track, `floor(analyzed_frames / n_frames * target_size)` samples.
    pub open spec fn preview_spec(self, target_size: int) -> Seq<PreviewSample>
        recommends
            self.codec_params.n_frames is Some,
    {
        preview_sel(
            self.buffer,
            self.analyzed,
            self.frames_per_packet(),
            self.codec_params.n_frames->Some_0,
            target_size,
        )
    }
}

/// The overview selection: the whole buffer once analyzed (or while the
/// scaling inputs are missing or degenerate); otherwise the prefix of
/// `floor(analyzed_frames / n_frames * target_size)` samples, where the
/// analyzed frames are the buffer's whole packets times `frames_per_packet`.
pub open spec fn preview_sel(
    buffer: Seq<PreviewSample>,
    analyzed: bool,
    frames_per_packet: Option<u64>,
    n_frames: u64,
    target_size: int,
) -> Seq<PreviewSample> {
    if analyzed {
        buffer
    } else {
        match frames_per_packet {
            None => buffer,
            Some(fpp) => {
                let nf = n_frames as int;
                if nf == 0 {
                    buffer
                } else {
                    let frames = (buffer.len() as int / (PREVIEW_SAMPLES_PER_PACKET as int)) * (
                    fpp as int);
                    let scaled = (frames * target_size) / nf;
                    if scaled <= buffer.len() {
                        buffer.take(scaled)
                    } else {
                        buffer
                    }
                }
            },
        }
    }
}

/// Analysis progress of one track, over its lifetime: it is `None` exactly
/// as long as a frames-per-packet value or the total frame count is missing;
/// it equals exactly 100 once the track is analyzed; and between two states
/// with the same parameters where only the buffer has grown (and the
/// completion flag not been withdrawn), it never decreases.
pub proof fn lemma_progress_monotonic(t1: TrackView, t2: TrackView)
    requires
        t1.codec_params == t2.codec_params,
        t1.estimate == t2.estimate,
        t1.buffer.len() <= t2.buffer.len(),
        t1.analyzed ==> t2.analyzed,
    ensures
        t1.progress_spec() is None <==> (!t1.analyzed && (t1.frames_per_packet() is None
            || t1.codec_params.n_frames is None)),
        t1.analyzed ==> t1.progress_spec() == Some(100u8),
        t1.progress_spec() is Some ==> t2.progress_spec() is Some,
        t1.progress_spec() is Some ==> t1.progress_spec()->Some_0
            <= t2.progress_spec()->Some_0,
{
    let k = PREVIEW_SAMPLES_PER_PACKET as int;
    if !t1.analyzed && t1.frames_per_packet() is Some && t1.codec_params.n_frames is Some {
        let fpp = t1.frames_per_packet()->Some_0 as int;
        let n = t1.codec_params.n_frames->Some_0 as int;
        lemma_div_pos_is_pos(t1.buffer.len() as int, k);
        lemma_div_pos_is_pos(t2.buffer.len() as int, k);
        assert(t1.analyzed_frames() >= 0) by {
            lemma_mul_inequality(0, t1.analyzed_packets(), fpp);
        }
        lemma_progress_pct_bounds(t1.analyzed_frames(), n);
        if !t2.analyzed {
            lemma_div_is_ordered(t1.buffer.len() as int, t2.buffer.len() as int, k);
            assert(t1.analyzed_packets() * fpp <= t2.analyzed_packets() * fpp) by {
                lemma_mul_inequality(t1.analyzed_packets(), t2.analyzed_packets(), fpp);
            }
            lemma_progress_pct_monotonic(t1.analyzed_frames(), t2.analyzed_frames(), n);
            lemma_progress_pct_bounds(t2.analyzed_frames(), n);
        }
    }
}

/// The fixed-width window of `buf` centered on sample index `center`:
/// element `i` is `buf[center - target_size/2 + i]` where that index lies
/// inside the buffer, and the zero sample elsewhere (padding past either
/// edge). Its length is always exactly `target_size`.
pub open spec fn live_window(buf: Seq<PreviewSample>, target_size: int, center: int) -> Seq<
    PreviewSample,
> {
    Seq::new(
        target_size as nat,
        |i: int|
            {
                let j = center - target_size / 2 + i;
                if 0 <= j < buf.len() {
                    buf[j]
                } else {
                    PreviewSample::zero_spec()
                }
            },
    )
}

/// At playback position zero the window's first half is zero padding, and
/// the rest mirrors the front of the buffer, zero-padded again past its end.
pub proof fn lemma_live_window_at_start(buf: Seq<PreviewSample>, target_size: int)
    requires
        0 <= target_size,
    ensures
        forall|i: int|
            0 <= i < target_size / 2 ==> live_window(buf, target_size, 0)[i]
                == PreviewSample::zero_spec(),
        forall|i: int|
            target_size / 2 <= i < target_size && i - target_size / 2 < buf.len() ==> live_window(
                buf,
                target_size,
                0,
            )[i] == buf[i - target_size / 2],
        forall|i: int|
            target_size / 2 <= i < target_size && i - target_size / 2 >= buf.len()
                ==> live_window(buf, target_size, 0)[i] == PreviewSample::zero_spec(),
{
}

/// One audio file under analysis or playback: identity, codec parameters,
/// the append-only preview buffer, a write-once fallback for the packet
/// size, and the completion flag.
pub struct Track {
    /// Track metadata.
    pub meta: TrackMeta,
    /// The file path; unique identity of the track.
    pub file_path: String,
    /// The file name: the path's portion after its final separator.
    pub file_name: String,
    /// Codec parameters reported by the probe.
    pub codec_params: CodecParams,
    /// Downsampled analysis output for preview rendering.
    preview_buffer: PreviewBuffer,
    /// Write-once fallback for codecs that do not report a packet size;
    /// used by the progress computation.
    estimated_samples_per_packet: Option<usize>,
    /// Set once the whole file has been analyzed.
    analyzed: bool,
}

impl View for Track {
    type V = TrackView;

    closed spec fn view(&self) -> TrackView {
        TrackView {
            meta: self.meta,
            file_path: self.file_path@,
            file_name: self.file_name@,
            codec_params: self.codec_params,
            buffer: self.preview_buffer@,
            estimate: self.estimated_samples_per_packet,
            analyzed: self.analyzed,
        }
    }
}

impl Track {
    /// Builds a fresh track for a file: empty preview buffer, no estimate,
    /// not yet analyzed. The file name is the path's final component, with
    /// trailing separators and `.` components skipped; the path must name
    /// a file at all.
    pub fn new(file_path: String, codec_params: CodecParams) -> (r: Track)
        requires
            has_file_name(file_path@),
        ensures
            r@.file_path == file_path@,
            r@.file_name == file_name_spec(file_path@),
            r@.codec_params == codec_params,
            r@.meta == (TrackMeta {}),
            r@.buffer == Seq::<PreviewSample>::empty(),
            r@.estimate is None,
            !r@.analyzed,
    {
        let file_name = file_name_of(file_path.as_str());
        Track {
            meta: TrackMeta {},
            file_path,
            file_name,
            codec_params,
            preview_buffer: PreviewBuffer::new(),
            estimated_samples_per_packet: None,
            analyzed: false,
        }
    }

    /// Sets the samples-per-packet estimate used when the codec reports no
    /// packet size. First write wins: once set, later calls change nothing.
    pub fn set_estimated_samples_per_packet(&mut self, estimated_samples_per_packet: usize)
        ensures
            final(self)@.estimate == set_estimate_model(
                old(self)@.estimate,
                estimated_samples_per_packet,
            ),
            final(self)@.same_identity(old(self)@),
            final(self)@.buffer == old(self)@.buffer,
            final(self)@.analyzed == old(self)@.analyzed,
    {
        if self.estimated_samples_per_packet.is_none() {
            self.estimated_samples_per_packet = Some(estimated_samples_per_packet);
        }
    }

    /// Appends analyzer output at the tail of the preview buffer, in order;
    /// earlier samples keep their index forever.
    pub fn append_preview_samples(&mut self, preview_samples: &Vec<PreviewSample>)
        ensures
            final(self)@.buffer == old(self)@.buffer + preview_samples@,
            final(self)@.same_identity(old(self)@),
            final(self)@.estimate == old(self)@.estimate,
            final(self)@.analyzed == old(self)@.analyzed,
    {
        self.preview_buffer.append(preview_samples);
    }

    /// Number of preview samples analyzed so far.
    pub fn preview_len(&self) -> (r: usize)
        ensures
            r == self@.buffer.len(),
    {
        self.preview_buffer.len()
    }

    /// A point-in-time copy of the preview buffer.
    pub fn snapshot_preview(&self) -> (r: Vec<PreviewSample>)
        ensures
            r@ == self@.buffer,
    {
        self.preview_buffer.snapshot()
    }

    /// Whether analysis of the whole file has finished.
    pub fn is_analyzed(&self) -> (r: bool)
        ensures
            r == self@.analyzed,
    {
        self.analyzed
    }

    /// Frames per packet for this track: the codec-reported maximum where
    /// present, else the externally set estimate, halved per the codec's
    /// sample-to-frame convention.
    pub fn get_frames_per_packet(&self) -> (r: Option<u64>)
        ensures
            r == self@.frames_per_packet(),
    {
        match self.codec_params.max_frames_per_packet {
            Some(x) => Some(x / 2),
            None => match self.estimated_samples_per_packet {
                Some(e) => Some((e as u64) / 2),
                None => None,
            },
        }
    }

    /// The analysis progress for this track, as a percentage between 0
    /// and 100: exactly 100 once the track is analyzed; the clamped ceiling
    /// of `analyzed_frames / n_frames * 100` while both a frames-per-packet
    /// value and the total frame count are known; unknown otherwise.
    pub fn progress(&self) -> (r: Option<u8>)
        ensures
            r == self@.progress_spec(),
    {
        if self.analyzed {
            return Some(100);
        }
        let fpp_opt = self.get_frames_per_packet();
        let nf_opt = self.codec_params.n_frames;
        if fpp_opt.is_none() || nf_opt.is_none() {
            return None;
        }
        let fpp = fpp_opt.unwrap();
        let nf = nf_opt.unwrap();
        let packets: usize = self.preview_buffer.len() / PREVIEW_SAMPLES_PER_PACKET;
        proof {
            lemma_mul_upper_bound(
                packets as int,
                u64::MAX as int,
                fpp as int,
                u64::MAX as int,
            );
        }
        let frames: u128 = (packets as u128) * (fpp as u128);
        let ghost f = self@.analyzed_frames();
        let ghost n = nf as int;
        let pct: u8;
        if nf == 0 {
            pct = if frames == 0 {
                0
            } else {
                100
            };
        } else if frames >= (nf as u128) {
            pct = 100;
            proof {
                assert(n * 100 <= f * 100) by {
                    lemma_mul_inequality(n, f, 100);
                }
                lemma_div_is_ordered(n * 100, f * 100 + n - 1, n);
                assert((n * 100) / n == 100) by {
                    lemma_div_multiples_vanish(100, n);
                }
            }
        } else {
            let num: u128 = frames * 100 + (nf as u128) - 1;
            let q: u128 = num / (nf as u128);
            proof {
                lemma_div_pos_is_pos(f * 100 + n - 1, n);
                assert(f * 100 <= (n - 1) * 100) by {
                    lemma_mul_inequality(f, n - 1, 100);
                }
                assert(f * 100 + n - 1 < n * 101) by {
                    assert((n - 1) * 100 == n * 100 - 100);
                }
                lemma_multiply_divide_lt(f * 100 + n - 1, n, 101);
            }
            pct = q as u8;
        }
        Some(pct)
    }

    /// Number of packets the whole track holds, from the total frame count
    /// and the frames-per-packet value; nothing when the latter is unknown.
    /// Asks for a known total frame count, and a packet length of at least
    /// one frame where one is known at all.
    pub fn n_packets(&self) -> (r: Option<u64>)
        requires
            self@.codec_params.n_frames is Some,
            self@.frames_per_packet() matches Some(f) ==> f > 0,
        ensures
            r == match self@.frames_per_packet() {
                Some(f) => Some((self@.codec_params.n_frames->Some_0) / f),
                None => None::<u64>,
            },
    {
        let n_frames = self.codec_params.n_frames.unwrap();
        match self.get_frames_per_packet() {
            Some(fpp) => Some(n_frames / fpp),
            None => None,
        }
    }

    /// The preview samples for a given player position (in packets) and
    /// target screen size: a window of exactly `target_size` samples
    /// centered on the playback position, zero-padded past either edge of
    /// the analyzed buffer. `playhead_position` is reserved for drawing a
    /// marker inside the window and does not affect which samples come back.
    pub fn live_preview(
        &self,
        target_size: usize,
        player_position: usize,
        playhead_position: usize,
    ) -> (r: Vec<PreviewSample>)
        ensures
            r@.len() == target_size,
            r@ == live_window(
                self@.buffer,
                target_size as int,
                player_position * PREVIEW_SAMPLES_PER_PACKET,
            ),
    {
        live_preview_of(
            self.preview_buffer.as_vec(),
            target_size,
            player_position,
            playhead_position,
        )
    }

    /// A downsampled overview of the whole track that fits a buffer of
    /// `target_size`: while analysis is incomplete, only the analyzed share
    /// of the requested size is returned, taken from the front of the
    /// buffer; once the track is analyzed, or while the scaling inputs are
    /// missing, the whole buffer comes back.
    pub fn preview(&self, target_size: usize) -> (r: Vec<PreviewSample>)
        requires
            self@.codec_params.n_frames is Some,
        ensures
            r@ == self@.preview_spec(target_size as int),
    {
        let n_frames = self.codec_params.n_frames.unwrap();
        preview_of(
            self.preview_buffer.as_vec(),
            self.analyzed,
            self.get_frames_per_packet(),
            n_frames,
            target_size,
        )
    }

    /// Whether two tracks name the same file. The file path is a track's
    /// identity: equality, ordering and hashing of tracks all go by it.
    pub fn has_same_file(&self, other: &Track) -> (r: bool)
        ensures
            r == (self@.file_path == other@.file_path),
    {
        str_eq(self.file_path.as_str(), other.file_path.as_str())
    }

    /// Marks the track as fully analyzed; the buffer keeps its contents.
    pub fn mark_analyzed(&mut self)
        ensures
            final(self)@.analyzed,
            final(self)@.same_identity(old(self)@),
            final(self)@.buffer == old(self)@.buffer,
            final(self)@.estimate == old(self)@.estimate,
    {
        self.analyzed = true;
    }
}

/// The preview window for a playback position and target screen size,
/// computed from a point-in-time snapshot of the preview buffer (or any
/// other sample sequence): a caller holding a lock takes the snapshot under
/// it and computes the window outside. Exactly `target_size` samples come
/// back, zero-padded past either edge. `playhead_position` is reserved for
/// drawing a marker inside the window and does not affect the selection.
#[allow(unused_variables)]
pub fn live_preview_of(
    samples: &Vec<PreviewSample>,
    target_size: usize,
    player_position: usize,
    playhead_position: usize,
) -> (r: Vec<PreviewSample>)
    ensures
        r@.len() == target_size,
        r@ == live_window(
            samples@,
            target_size as int,
            player_position * PREVIEW_SAMPLES_PER_PACKET,
        ),
{
    let center: u128 = (player_position as u128) * (PREVIEW_SAMPLES_PER_PACKET as u128);
    let half: usize = target_size / 2;
    let len: usize = samples.len();
    let ghost c = (player_position as int) * (PREVIEW_SAMPLES_PER_PACKET as int);
    let mut out: Vec<PreviewSample> = Vec::new();
    let mut i: usize = 0;
    while i < target_size
        invariant
            i <= target_size,
            out@.len() == i as int,
            len == samples@.len(),
            half == target_size as int / 2,
            c == (player_position as int) * (PREVIEW_SAMPLES_PER_PACKET as int),
            center as int == c,
            forall|k: int|
                0 <= k < i ==> out@[k] == live_window(samples@, target_size as int, c)[k],
        decreases target_size - i,
    {
        let s: PreviewSample;
        if i >= half {
            let off: u128 = (i - half) as u128;
            let idx: u128 = center + off;
            if idx < len as u128 {
                s = samples[idx as usize];
            } else {
                s = PreviewSample::zero();
            }
        } else {
            let d: u128 = (half - i) as u128;
            if center >= d && center - d < len as u128 {
                s = samples[(center - d) as usize];
            } else {
                s = PreviewSample::zero();
            }
        }
        proof {
            assert(live_window(samples@, target_size as int, c)[i as int] == s);
        }
        out.push(s);
        i = i + 1;
    }
    proof {
        assert(out@ =~= live_window(samples@, target_size as int, c));
    }
    out
}

/// The overview selection, computed from a point-in-time snapshot of the
/// preview buffer and the track's scaling inputs: a caller holding a lock
/// takes the snapshot under it and computes the prefix outside. While
/// analysis is incomplete, only the analyzed share of the requested size
/// comes back, from the front; once analyzed, or while the scaling inputs
/// are missing, the whole sequence.
pub fn preview_of(
    samples: &Vec<PreviewSample>,
    analyzed: bool,
    frames_per_packet: Option<u64>,
    n_frames: u64,
    target_size: usize,
) -> (r: Vec<PreviewSample>)
    ensures
        r@ == preview_sel(samples@, analyzed, frames_per_packet, n_frames, target_size as int),
{
    let len: usize = samples.len();
    let mut take: usize = len;
    if !analyzed {
        if let Some(fpp) = frames_per_packet {
            if n_frames > 0 {
                let packets: usize = len / PREVIEW_SAMPLES_PER_PACKET;
                proof {
                    lemma_mul_upper_bound(
                        packets as int,
                        u64::MAX as int,
                        fpp as int,
                        u64::MAX as int,
                    );
                }
                let frames: u128 = (packets as u128) * (fpp as u128);
                let nf128: u128 = n_frames as u128;
                let q: u128 = frames / nf128;
                let rem: u128 = frames % nf128;
                let ghost f = frames as int;
                let ghost n = n_frames as int;
                let ghost t = target_size as int;
                let ghost scaled = (f * t) / n;
                proof {
                    lemma_fundamental_div_mod(f, n);
                    lemma_mod_division_less_than_divisor(f, n);
                }
                if target_size == 0 {
                    take = 0;
                    proof {
                        lemma_div_of0(n);
                        assert(f * t == 0) by (nonlinear_arith)
                            requires
                                t == 0,
                        ;
                        assert(scaled == 0);
                    }
                } else if q >= len as u128 {
                    take = len;
                    proof {
                        let qi = q as int;
                        assert(f * t >= (qi * t) * n) by (nonlinear_arith)
                            requires
                                f == n * qi + (rem as int),
                                rem as int >= 0,
                                t >= 0,
                                n >= 1,
                        ;
                        lemma_div_is_ordered((qi * t) * n, f * t, n);
                        assert(((qi * t) * n) / n == qi * t) by {
                            lemma_div_multiples_vanish(qi * t, n);
                            assert(n * (qi * t) == (qi * t) * n) by (nonlinear_arith);
                        }
                        assert(qi * t >= qi) by (nonlinear_arith)
                            requires
                                t >= 1,
                                qi >= 0,
                        ;
                        assert(scaled >= len as int);
                    }
                } else {
                    let tgt128: u128 = target_size as u128;
                    proof {
                        lemma_mul_upper_bound(q as int, u64::MAX as int, t, u64::MAX as int);
                        lemma_mul_upper_bound(rem as int, u64::MAX as int, t, u64::MAX as int);
                        assert(rem as int * t < n * t) by {
                            lemma_mul_strict_inequality(rem as int, n, t);
                        }
                        assert(rem as int * t >= 0) by {
                            lemma_mul_inequality(0, rem as int, t);
                        }
                        lemma_multiply_divide_lt(rem as int * t, n, t);
                        lemma_div_pos_is_pos(rem as int * t, n);
                        assert((q as int + 1) * t <= len as int * t) by {
                            lemma_mul_inequality(q as int + 1, len as int, t);
                        }
                        lemma_mul_upper_bound(len as int, u64::MAX as int, t, u64::MAX as int);
                    }
                    let scaled128: u128 = q * tgt128 + (rem * tgt128) / nf128;
                    proof {
                        assert(f * t == rem as int * t + (q as int * t) * n) by (nonlinear_arith)
                            requires
                                f == n * (q as int) + (rem as int),
                        ;
                        lemma_hoist_over_denominator(rem as int * t, q as int * t, n as nat);
                        assert(scaled128 as int == scaled);
                    }
                    if scaled128 >= len as u128 {
                        take = len;
                    } else {
                        take = scaled128 as usize;
                        proof {
                            assert(take as int == scaled);
                        }
                    }
                }
            }
        }
    }
    let mut out: Vec<PreviewSample> = Vec::new();
    let mut i: usize = 0;
    while i < take
        invariant
            i <= take,
            take <= len,
            len == samples@.len(),
            out@ == samples@.take(i as int),
        decreases take - i,
    {
        out.push(samples[i]);
        i = i + 1;
        proof {
            assert(samples@.take(i as int) =~= samples@.take(i - 1).push(samples@[i - 1]));
        }
    }
    proof {
        if take == len {
            assert(samples@.take(len as int) =~= samples@);
        }
    }
    out
}

/// Character-for-character equality of two strings.
fn str_eq(a: &str, b: &str) -> (r: bool)
    ensures
        r == (a@ == b@),
{
    let la = a.unicode_len();
    let lb = b.unicode_len();
    if la != lb {
        return false;
    }
    let mut i: usize = 0;
    while i < la
        invariant
            i <= la,
            la == a@.len(),
            la == b@.len(),
            forall|k: int| 0 <= k < i ==> a@[k] == b@[k],
        decreases la - i,
    {
        if a.get_char(i) != b.get_char(i) {
            return false;
        }
        i = i + 1;
    }
    proof {
        assert(a@ =~= b@);
    }
    true
}

/// Extracts the final path component: trailing separators and `.`
/// components are skipped first, then everything after the last remaining
/// separator is the file name (the whole rest when none remains).
fn file_name_of(path: &str) -> (r: String)
    ensures
        r@ == file_name_spec(path@),
{
    let len = path.unicode_len();
    proof {
        assert(path@.take(len as int) =~= path@);
    }
    let mut end: usize = len;
    let mut trimming = true;
    while end > 0 && trimming
        invariant
            end <= len,
            len == path@.len(),
            trimming ==> file_name_end(path@) == file_name_end(path@.take(end as int)),
            !trimming ==> file_name_end(path@) == end as int,
        decreases end, (if trimming { 1int } else { 0int }),
    {
        let c = path.get_char(end - 1);
        proof {
            assert(path@.take(end as int).drop_last() =~= path@.take(end - 1));
        }
        if c == '/' {
            end = end - 1;
        } else if c == '.' && (end == 1 || path.get_char(end - 2) == '/') {
            end = end - 1;
        } else {
            trimming = false;
        }
    }
    proof {
        if trimming {
            assert(path@.take(0int) =~= Seq::<char>::empty());
        }
        assert(file_name_end(path@) == end as int);
    }
    let mut i: usize = 0;
    let mut start: usize = 0;
    while i < end
        invariant
            i <= end,
            end <= len,
            len == path@.len(),
            start <= i,
            file_name_start(path@.take(i as int)) == start as int,
        decreases end - i,
    {
        let c = path.get_char(i);
        proof {
            assert(path@.take(i + 1).drop_last() =~= path@.take(i as int));
        }
        if c == '/' {
            start = i + 1;
        }
        i = i + 1;
    }
    let sub = path.substring_char(start, end);
    proof {
        assert(sub@ =~= file_name_spec(path@));
    }
    String::from_str(sub)
}

} // verus!
