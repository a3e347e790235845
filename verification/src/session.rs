//! The recording session's state machine.
//!
//! The desktop owns one session. Starting, pausing, resuming and stopping a
//! recording drive FFmpeg, the screen pump and the audio streams (work done
//! outside this module); the decisions (whether the request is allowed in
//! the current state, what the session reports, how long it has been
//! recording) are made here. Time is a monotonic clock reading in
//! milliseconds supplied by the caller; paused time does not count.

use vstd::prelude::*;
use crate::audio::AudioError;
use crate::capture::CaptureError;
use crate::encode::{encoder_name, EncodeError, VideoEncoderKind};
use crate::settings::{OutputFormat, Region, VideoSourceKind};
use crate::ffmpeg_args::RecordRequest;
use crate::capture::{
    distances_fit, edge_fits, lemma_normalized_fits, list_monitor_rects, rects_fit, list_monitor_rects_spec, normalize_display_rect_among,
    normalized_rect, virtual_screen, window_by_id, CaptureTarget, VirtualScreen, WindowInfo,
};
use crate::text::{
    chars_of, extend_chars, extend_range, join_parts, joined, lines_of, split_lines, string_from,
    trim, trimmed_range,
};

verus! {

#[derive(Debug, Clone, Copy, PartialEq, Eq, Structural)]
pub enum SessionState {
    Idle,
    Starting,
    Recording,
    Paused,
    Stopping,
}

/// What the session reports to the UI and the control plane.
#[derive(Debug)]
pub struct SessionSnapshot {
    pub state: SessionState,
    pub elapsed_ms: u64,
    pub output_path: Option<String>,
    pub last_error: Option<String>,
    pub encoder: Option<String>,
    pub hide_app: bool,
}

#[derive(Debug)]
pub enum CoreError {
    Capture(CaptureError),
    Encode(EncodeError),
    Audio(AudioError),
    InvalidState(String),
    Io(std::io::Error),
    Message(String),
}

/// The message of a session error: that of the wrapped error, or the
/// state complaint, the I/O error or the plain message. An I/O error's own
/// text comes from the operating system and is left open.
pub open spec fn core_error_text(e: CoreError, io_text: Seq<char>) -> Seq<char> {
    match e {
        CoreError::Capture(c) => crate::capture::capture_error_text(c),
        CoreError::Encode(x) => crate::encode::encode_error_text(x, io_text),
        CoreError::Audio(a) => crate::audio::audio_error_text(a),
        CoreError::InvalidState(m) => "invalid state: "@ + m@,
        CoreError::Io(_) => "io: "@ + io_text,
        CoreError::Message(m) => m@,
    }
}

impl CoreError {
    /// The error's message.
    pub fn message(&self) -> (r: String)
        ensures
            exists|io_text: Seq<char>| r@ == core_error_text(*self, io_text),
            !(self is Io) && !(self matches CoreError::Encode(EncodeError::Io(_))) ==> r@
                == core_error_text(*self, Seq::empty()),
    {
        match self {
            CoreError::Capture(c) => {
                let r = c.message();
                proof {
                    assert(r@ == core_error_text(*self, Seq::empty()));
                }
                r
            },
            CoreError::Encode(x) => {
                let r = x.message();
                proof {
                    let t = choose|t: Seq<char>| r@ == crate::encode::encode_error_text(*x, t);
                    assert(r@ == core_error_text(*self, t));
                }
                r
            },
            CoreError::Audio(a) => {
                let r = a.message();
                proof {
                    assert(r@ == core_error_text(*self, Seq::empty()));
                }
                r
            },
            CoreError::InvalidState(m) => {
                let mut out = chars_of("invalid state: ");
                extend_chars(&mut out, chars_of(m.as_str()).as_slice());
                proof {
                    assert(out@ == core_error_text(*self, Seq::empty()));
                }
                string_from(out.as_slice())
            },
            CoreError::Io(e) => {
                let mut out = chars_of("io: ");
                let t = crate::std_types::io_error_text(e);
                extend_chars(&mut out, chars_of(t.as_str()).as_slice());
                proof {
                    assert(out@ == core_error_text(*self, t@));
                }
                string_from(out.as_slice())
            },
            CoreError::Message(m) => {
                let r = m.clone();
                proof {
                    assert(r@ == core_error_text(*self, Seq::empty()));
                }
                r
            },
        }
    }
}

/// `a - b`, zero when `b > a` (what `saturating_sub` computes).
pub open spec fn sat_sub(a: int, b: int) -> int {
    if a >= b { a - b } else { 0 }
}

/// Recording time bookkeeping of a live recording.
pub struct RecordingClock {
    started_ms: u64,
    paused_accum_ms: u64,
    pause_started_ms: Option<u64>,
}

impl RecordingClock {
    pub closed spec fn started(&self) -> u64 {
        self.started_ms
    }

    /// Paused milliseconds of pauses already ended.
    pub closed spec fn paused_total(&self) -> u64 {
        self.paused_accum_ms
    }

    /// When the current pause began, if paused.
    pub closed spec fn pause_started(&self) -> Option<u64> {
        self.pause_started_ms
    }

    /// A clock started at `t`.
    pub closed spec fn started_at(t: u64) -> Self {
        RecordingClock { started_ms: t, paused_accum_ms: 0, pause_started_ms: None }
    }

    /// This clock paused at `now` (unchanged when already paused).
    pub closed spec fn paused_at(self, now: u64) -> Self {
        match self.pause_started_ms {
            Some(_) => self,
            None => RecordingClock { pause_started_ms: Some(now), ..self },
        }
    }

    /// This clock resumed at `now` (unchanged when not paused).
    pub closed spec fn resumed_at(self, now: u64) -> Self {
        match self.pause_started_ms {
            None => self,
            Some(p) => RecordingClock {
                paused_accum_ms: (self.paused_accum_ms + sat_sub(now as int, p as int)) as u64,
                pause_started_ms: None,
                ..self
            },
        }
    }

    /// Recorded milliseconds at `now`: the time since the start minus every
    /// pause, the current one up to `now` included.
    pub open spec fn elapsed_at(&self, now: u64) -> int {
        let since_start = sat_sub(now as int, self.started() as int);
        let active = sat_sub(since_start, self.paused_total() as int);
        match self.pause_started() {
            Some(p) => sat_sub(active, sat_sub(now as int, p as int)),
            None => active,
        }
    }

    pub fn start(now: u64) -> (r: Self)
        ensures
            r == Self::started_at(now),
    {
        RecordingClock { started_ms: now, paused_accum_ms: 0, pause_started_ms: None }
    }

    pub fn is_paused(&self) -> (r: bool)
        ensures
            r == self.pause_started() is Some,
    {
        self.pause_started_ms.is_some()
    }

    fn pause(&mut self, now: u64)
        requires
            old(self).pause_started() is None,
        ensures
            *final(self) == old(self).paused_at(now),
    {
        self.pause_started_ms = Some(now);
    }

    fn resume(&mut self, now: u64)
        requires
            old(self).pause_started() matches Some(p) ==> old(self).paused_total() + sat_sub(
                now as int,
                p as int,
            ) <= u64::MAX,
        ensures
            *final(self) == old(self).resumed_at(now),
    {
        if let Some(p) = self.pause_started_ms {
            let d: u64 = if now >= p { now - p } else { 0 };
            self.paused_accum_ms = self.paused_accum_ms + d;
            self.pause_started_ms = None;
        }
    }

    /// Recorded milliseconds at `now`.
    pub fn elapsed_ms(&self, now: u64) -> (r: u64)
        ensures
            r == self.elapsed_at(now),
    {
        let since_start: u64 = if now >= self.started_ms { now - self.started_ms } else { 0 };
        let active: u64 = if since_start >= self.paused_accum_ms {
            since_start - self.paused_accum_ms
        } else {
            0
        };
        match self.pause_started_ms {
            Some(p) => {
                let paused: u64 = if now >= p { now - p } else { 0 };
                if active >= paused { active - paused } else { 0 }
            },
            None => active,
        }
    }
}

/// Recorded time is wall time minus paused time: a recording started at
/// `t0`, paused at `t1` and resumed at `t2` has recorded `(t3 - t0) - (t2 -
/// t1)` milliseconds at `t3`.
pub proof fn lemma_pause_excluded(t0: u64, t1: u64, t2: u64, t3: u64)
    requires
        t0 <= t1 <= t2 <= t3,
    ensures
        RecordingClock::started_at(t0).paused_at(t1).resumed_at(t2).elapsed_at(t3) == (t3 - t0)
            - (t2 - t1),
{
}

/// While paused the recorded time stands still.
pub proof fn lemma_paused_clock_frozen(t0: u64, t1: u64, a: u64, b: u64)
    requires
        t0 <= t1 <= a,
        t1 <= b,
    ensures
        RecordingClock::started_at(t0).paused_at(t1).elapsed_at(a) == RecordingClock::started_at(
            t0,
        ).paused_at(t1).elapsed_at(b),
        RecordingClock::started_at(t0).paused_at(t1).elapsed_at(a) == t1 - t0,
{
}

/// The session's live recording.
pub struct LiveRecording {
    pub clock: RecordingClock,
    pub output_path: String,
    pub encoder: VideoEncoderKind,
    pub hide_app: bool,
}

/// The session's state: at most one live recording, and the last error.
pub struct SessionControl {
    live: Option<LiveRecording>,
    last_error: Option<String>,
}

/// The view of a snapshot.
pub open spec fn snapshot_view(s: SessionSnapshot) -> (SessionState, u64, Option<Seq<char>>, Option<Seq<char>>, Option<Seq<char>>, bool) {
    (
        s.state,
        s.elapsed_ms,
        match s.output_path {
            Some(p) => Some(p@),
            None => None,
        },
        match s.last_error {
            Some(e) => Some(e@),
            None => None,
        },
        match s.encoder {
            Some(e) => Some(e@),
            None => None,
        },
        s.hide_app,
    )
}

/// The error a refused request is answered with.
pub open spec fn is_invalid_state(r: CoreError, msg: Seq<char>) -> bool {
    r matches CoreError::InvalidState(m) && m@ == msg
}

fn invalid_state(msg: &str) -> (r: CoreError)
    ensures
        is_invalid_state(r, msg@),
{
    CoreError::InvalidState(msg.to_owned())
}

fn clone_opt(s: &Option<String>) -> (r: Option<String>)
    ensures
        r == *s,
{
    match s {
        Some(v) => Some(v.clone()),
        None => None,
    }
}

impl SessionControl {
    pub closed spec fn live(&self) -> Option<LiveRecording> {
        self.live
    }

    pub closed spec fn last_error(&self) -> Option<String> {
        self.last_error
    }

    /// What `snapshot(now)` reports.
    pub open spec fn reported(&self, now: u64) -> (SessionState, u64, Option<Seq<char>>, Option<Seq<char>>, Option<Seq<char>>, bool) {
        let err = match self.last_error() {
            Some(e) => Some(e@),
            None => None,
        };
        match self.live() {
            Some(rec) => (
                if rec.clock.pause_started() is Some {
                    SessionState::Paused
                } else {
                    SessionState::Recording
                },
                rec.clock.elapsed_at(now) as u64,
                Some(rec.output_path@),
                err,
                Some(encoder_name(rec.encoder)),
                rec.hide_app,
            ),
            None => (SessionState::Idle, 0, None, err, None, false),
        }
    }

    pub fn new() -> (r: Self)
        ensures
            r.live() is None,
            r.last_error() is None,
    {
        SessionControl { live: None, last_error: None }
    }

    /// The session's report at `now`.
    pub fn snapshot(&self, now: u64) -> (r: SessionSnapshot)
        ensures
            snapshot_view(r) == self.reported(now),
    {
        let err = clone_opt(&self.last_error);
        match &self.live {
            Some(rec) => {
                let state = if rec.clock.is_paused() {
                    SessionState::Paused
                } else {
                    SessionState::Recording
                };
                SessionSnapshot {
                    state,
                    elapsed_ms: rec.clock.elapsed_ms(now),
                    output_path: Some(rec.output_path.clone()),
                    last_error: err,
                    encoder: Some(rec.encoder.ffmpeg_name().to_owned()),
                    hide_app: rec.hide_app,
                }
            },
            None => SessionSnapshot {
                state: SessionState::Idle,
                elapsed_ms: 0,
                output_path: None,
                last_error: err,
                encoder: None,
                hide_app: false,
            },
        }
    }

    /// A new recording may start only when none is live.
    pub fn ensure_idle(&self) -> (r: Result<(), CoreError>)
        ensures
            match r {
                Ok(()) => self.live() is None,
                Err(e) => self.live() is Some && is_invalid_state(e, "already recording"@),
            },
    {
        if self.live.is_some() {
            Err(invalid_state("already recording"))
        } else {
            Ok(())
        }
    }

    /// Record the failure of an attempt to start.
    pub fn start_failed(&mut self, message: String)
        ensures
            final(self).live() == old(self).live(),
            final(self).last_error() == Some(message),
    {
        self.last_error = Some(message);
    }

    /// The recording is live: its producers began at `started_at`; report it
    /// at `now`. Refused when a recording is already live.
    pub fn begin(
        &mut self,
        output_path: String,
        encoder: VideoEncoderKind,
        hide_app: bool,
        started_at: u64,
        now: u64,
    ) -> (r: Result<SessionSnapshot, CoreError>)
        ensures
            match r {
                Ok(snap) => {
                    &&& old(self).live() is None
                    &&& final(self).live() == Some(
                        LiveRecording {
                            clock: RecordingClock::started_at(started_at),
                            output_path,
                            encoder,
                            hide_app,
                        },
                    )
                    &&& final(self).last_error() is None
                    &&& snapshot_view(snap) == final(self).reported(now)
                },
                Err(e) => {
                    &&& old(self).live() is Some
                    &&& is_invalid_state(e, "already recording"@)
                    &&& *final(self) == *old(self)
                },
            },
    {
        if self.live.is_some() {
            return Err(invalid_state("already recording"));
        }
        self.live = Some(
            LiveRecording { clock: RecordingClock::start(started_at), output_path, encoder, hide_app },
        );
        self.last_error = None;
        Ok(self.snapshot(now))
    }

    /// Pause the live recording at `now`.
    pub fn pause(&mut self, now: u64) -> (r: Result<SessionSnapshot, CoreError>)
        ensures
            match old(self).live() {
                None => r matches Err(e) && is_invalid_state(e, "not recording"@) && *final(self)
                    == *old(self),
                Some(rec) => if rec.clock.pause_started() is Some {
                    r matches Err(e) && is_invalid_state(e, "already paused"@) && *final(self)
                        == *old(self)
                } else {
                    r matches Ok(snap) && final(self).live() == Some(
                        LiveRecording { clock: rec.clock.paused_at(now), ..rec },
                    ) && final(self).last_error() == old(self).last_error() && snapshot_view(snap)
                        == final(self).reported(now)
                },
            },
    {
        match &mut self.live {
            None => {
                return Err(invalid_state("not recording"));
            },
            Some(rec) => {
                if rec.clock.is_paused() {
                    return Err(invalid_state("already paused"));
                }
                rec.clock.pause(now);
            },
        }
        Ok(self.snapshot(now))
    }

    /// Resume the paused recording at `now`; the pause stops counting.
    pub fn resume(&mut self, now: u64) -> (r: Result<SessionSnapshot, CoreError>)
        requires
            old(self).live() matches Some(rec) ==> (rec.clock.pause_started() matches Some(p)
                ==> rec.clock.paused_total() + sat_sub(now as int, p as int) <= u64::MAX),
        ensures
            match old(self).live() {
                None => r matches Err(e) && is_invalid_state(e, "not recording"@) && *final(self)
                    == *old(self),
                Some(rec) => if rec.clock.pause_started() is None {
                    r matches Err(e) && is_invalid_state(e, "not paused"@) && *final(self)
                        == *old(self)
                } else {
                    r matches Ok(snap) && final(self).live() == Some(
                        LiveRecording { clock: rec.clock.resumed_at(now), ..rec },
                    ) && final(self).last_error() == old(self).last_error() && snapshot_view(snap)
                        == final(self).reported(now)
                },
            },
    {
        match &mut self.live {
            None => {
                return Err(invalid_state("not recording"));
            },
            Some(rec) => {
                if !rec.clock.is_paused() {
                    return Err(invalid_state("not paused"));
                }
                rec.clock.resume(now);
            },
        }
        Ok(self.snapshot(now))
    }

    /// End the live recording: hand it over for shutdown and go idle.
    pub fn finish(&mut self) -> (r: Result<LiveRecording, CoreError>)
        ensures
            match old(self).live() {
                None => r matches Err(e) && is_invalid_state(e, "not recording"@) && *final(self)
                    == *old(self),
                Some(rec) => r == Ok::<LiveRecording, CoreError>(rec) && final(self).live() is None
                    && final(self).last_error() == old(self).last_error(),
            },
    {
        match self.live.take() {
            None => Err(invalid_state("not recording")),
            Some(rec) => Ok(rec),
        }
    }

    /// Record why a finished recording produced no usable file.
    pub fn stop_failed(&mut self, message: String)
        ensures
            final(self).live() == old(self).live(),
            final(self).last_error() == Some(message),
    {
        self.last_error = Some(message);
    }
}

/// The report of a recording that stopped with a usable file.
pub fn stopped_snapshot(rec: &LiveRecording) -> (r: SessionSnapshot)
    ensures
        snapshot_view(r) == (
            SessionState::Idle,
            0u64,
            Some(rec.output_path@),
            None::<Seq<char>>,
            Some(encoder_name(rec.encoder)),
            false,
        ),
{
    SessionSnapshot {
        state: SessionState::Idle,
        elapsed_ms: 0,
        output_path: Some(rec.output_path.clone()),
        last_error: None,
        encoder: Some(rec.encoder.ffmpeg_name().to_owned()),
        hide_app: false,
    }
}

/// The session reports idle exactly when no recording is live, and a live
/// recording as paused exactly when its clock is paused.
pub proof fn lemma_reported_state(s: SessionControl, now: u64)
    ensures
        (s.live() is None) == (s.reported(now).0 == SessionState::Idle),
        s.live() matches Some(rec) ==> (rec.clock.pause_started() is Some <==> s.reported(now).0
            == SessionState::Paused),
{
}

/// The encoder to record with, when settled without probing: GIF output
/// always uses the GIF encoder, then the requested encoder, then the
/// preferred one from the settings; `None` means the best H.264 encoder
/// ffmpeg offers is to be probed for.
pub open spec fn encoder_choice_spec(
    format: OutputFormat,
    requested: Option<VideoEncoderKind>,
    preferred: Option<VideoEncoderKind>,
) -> Option<VideoEncoderKind> {
    if format == OutputFormat::Gif {
        Some(VideoEncoderKind::Gif)
    } else if requested is Some {
        requested
    } else {
        preferred
    }
}

pub fn encoder_choice(
    format: OutputFormat,
    requested: Option<VideoEncoderKind>,
    preferred: Option<VideoEncoderKind>,
) -> (r: Option<VideoEncoderKind>)
    ensures
        r == encoder_choice_spec(format, requested, preferred),
{
    if format == OutputFormat::Gif {
        Some(VideoEncoderKind::Gif)
    } else if requested.is_some() {
        requested
    } else {
        preferred
    }
}

/// What follows a failed attempt to boot the recording pipeline.
#[derive(Debug, Clone, Copy, PartialEq, Eq, Structural)]
pub enum BootRetry {
    /// Boot again with libx264.
    WithLibx264,
    /// Record the error (`SessionControl::start_failed`) and report it.
    GiveUp,
}

/// The start sequence after the pipeline failed to boot with `encoder`: the
/// first failure of an MP4 recording with another encoder than libx264 is
/// retried with libx264; any other failure ends the start. A boot that
/// succeeds goes on to `SessionControl::begin`.
pub fn after_boot_failure(encoder: VideoEncoderKind, format: OutputFormat, first_attempt: bool) -> (r: BootRetry)
    ensures
        (r == BootRetry::WithLibx264) == (first_attempt && encoder != VideoEncoderKind::Libx264
            && format == OutputFormat::Mp4),
{
    if first_attempt && may_fall_back_to_libx264(encoder, format) {
        BootRetry::WithLibx264
    } else {
        BootRetry::GiveUp
    }
}

/// A failed start is retried once with libx264, for MP4 output with another
/// encoder.
pub fn may_fall_back_to_libx264(encoder: VideoEncoderKind, format: OutputFormat) -> (r: bool)
    ensures
        r == (encoder != VideoEncoderKind::Libx264 && format == OutputFormat::Mp4),
{
    encoder != VideoEncoderKind::Libx264 && format == OutputFormat::Mp4
}

/// A line with nothing but whitespace.
pub open spec fn is_blank(l: Seq<char>) -> bool {
    trim(l).len() == 0
}

/// The lines that are not blank, in order.
pub open spec fn nonblank(ls: Seq<Seq<char>>) -> Seq<Seq<char>>
    decreases ls.len(),
{
    if ls.len() == 0 {
        seq![]
    } else if is_blank(ls.last()) {
        nonblank(ls.drop_last())
    } else {
        nonblank(ls.drop_last()).push(ls.last())
    }
}

/// The last `n` items (all of them when there are fewer).
pub open spec fn last_n(ls: Seq<Seq<char>>, n: nat) -> Seq<Seq<char>> {
    if ls.len() <= n {
        ls
    } else {
        ls.skip(ls.len() - n)
    }
}

/// How many of ffmpeg's last stderr lines explain a failed recording.
pub const STDERR_TAIL_LINES: usize = 6;

/// The tail of ffmpeg's stderr that goes into the error: the last
/// non-blank lines of the trimmed log, joined with `" | "`.
pub open spec fn stderr_detail(log: Seq<char>) -> Seq<char> {
    joined(last_n(nonblank(lines_of(trim(log))), STDERR_TAIL_LINES as nat), " | "@)
}

/// The error of a recording that produced no usable file at `path`.
pub open spec fn stop_failure_text(log: Seq<char>, path: Seq<char>) -> Seq<char> {
    let detail = stderr_detail(log);
    if detail.len() == 0 {
        "recording produced no usable file: "@ + path + " (ffmpeg wrote nothing to stderr)"@
    } else {
        "recording failed: "@ + detail
    }
}

/// The lines of `lines` that are not blank, each copied.
fn nonblank_lines(lines: &Vec<Vec<char>>) -> (r: Vec<Vec<char>>)
    ensures
        r@.map_values(|l: Vec<char>| l@) == nonblank(lines@.map_values(|l: Vec<char>| l@)),
{
    let ghost ls = lines@.map_values(|l: Vec<char>| l@);
    let mut kept: Vec<Vec<char>> = Vec::new();
    let mut i: usize = 0;
    proof {
        assert(ls.take(0) =~= Seq::<Seq<char>>::empty());
        assert(kept@.map_values(|l: Vec<char>| l@) =~= Seq::<Seq<char>>::empty());
    }
    while i < lines.len()
        invariant
            i <= lines@.len(),
            ls == lines@.map_values(|l: Vec<char>| l@),
            kept@.map_values(|l: Vec<char>| l@) == nonblank(ls.take(i as int)),
        decreases lines@.len() - i,
    {
        let line = &lines[i];
        let t = trimmed_range(line.as_slice(), 0, line.len());
        proof {
            assert(line@.subrange(0, line@.len() as int) == line@);
            assert(ls[i as int] == line@);
            assert(ls.take(i + 1).drop_last() == ls.take(i as int));
            assert(ls.take(i + 1).last() == line@);
        }
        if t.len() > 0 {
            let mut copy: Vec<char> = Vec::new();
            extend_range(&mut copy, line.as_slice(), 0, line.len());
            let ghost before = kept@.map_values(|l: Vec<char>| l@);
            kept.push(copy);
            proof {
                assert(kept@.map_values(|l: Vec<char>| l@) == before.push(line@));
            }
        }
        i = i + 1;
    }
    proof {
        assert(ls.take(lines@.len() as int) == ls);
    }
    kept
}

/// The error of a recording that produced no usable file at `path`, from
/// ffmpeg's stderr `log`: its last non-blank lines, or, when it wrote
/// nothing, the path.
pub fn stop_failure_message(log: &str, path: &str) -> (r: String)
    ensures
        r@ == stop_failure_text(log@, path@),
{
    let all = chars_of(log);
    let trimmed = trimmed_range(all.as_slice(), 0, all.len());
    proof {
        assert(all@.subrange(0, all@.len() as int) == log@);
    }
    let lines = split_lines(trimmed.as_slice());
    let kept = nonblank_lines(&lines);
    let start: usize = if kept.len() > STDERR_TAIL_LINES {
        kept.len() - STDERR_TAIL_LINES
    } else {
        0
    };
    let sep = chars_of(" | ");
    let detail = join_parts(&kept, start, sep.as_slice());
    proof {
        let ks = kept@.map_values(|l: Vec<char>| l@);
        if ks.len() <= STDERR_TAIL_LINES {
            assert(ks.skip(0) == ks);
        }
        assert(last_n(ks, STDERR_TAIL_LINES as nat) == ks.skip(start as int));
    }
    let mut out: Vec<char>;
    if detail.len() == 0 {
        out = chars_of("recording produced no usable file: ");
        let p = chars_of(path);
        extend_chars(&mut out, p.as_slice());
        let tail = chars_of(" (ffmpeg wrote nothing to stderr)");
        extend_chars(&mut out, tail.as_slice());
    } else {
        out = chars_of("recording failed: ");
        extend_chars(&mut out, detail.as_slice());
    }
    string_from(out.as_slice())
}

/// A rectangle as a region.
pub open spec fn rect_region(r: (int, int, int, int)) -> Region {
    Region { x: r.0 as i32, y: r.1 as i32, width: r.2 as u32, height: r.3 as u32 }
}

/// The region a recording captures before clamping: a window recording
/// takes the window's rectangle when the window is found; a display
/// recording takes its monitor's rectangle, else the rectangle the capture
/// backend reports for that display placed on the monitors, else the
/// request's region.
pub open spec fn chosen_region(
    req: RecordRequest,
    window: Option<(i32, i32, u32, u32)>,
    monitors: Seq<VirtualScreen>,
    display: Option<(i32, i32, u32, u32)>,
    screen: VirtualScreen,
) -> Option<Region> {
    let r1 = if req.source == VideoSourceKind::Window && req.window_id is Some && window is Some {
        let w = window->0;
        Some(Region { x: w.0, y: w.1, width: w.2, height: w.3 })
    } else {
        req.region
    };
    if req.source == VideoSourceKind::Display {
        let id: int = if req.display_id is Some { req.display_id->0 as int } else { 0 };
        if id < monitors.len() {
            let m = monitors[id];
            Some(Region { x: m.x, y: m.y, width: m.width, height: m.height })
        } else if display is Some {
            let d = display->0;
            Some(rect_region(normalized_rect(monitors, screen, d.0, d.1, d.2, d.3)))
        } else {
            r1
        }
    } else {
        r1
    }
}

/// The region a recording captures: the chosen region clamped into the
/// virtual screen (none when it asks for none); a region that leaves under
/// 2x2 pixels on screen is refused.
pub open spec fn resolved_region(
    req: RecordRequest,
    window: Option<(i32, i32, u32, u32)>,
    monitors: Seq<VirtualScreen>,
    display: Option<(i32, i32, u32, u32)>,
    screen: VirtualScreen,
) -> Result<Option<Region>, Seq<char>> {
    match chosen_region(req, window, monitors, display, screen) {
        None => Ok(None),
        Some(r) => match screen.clamped(r.x as int, r.y as int, r.width as int, r.height as int) {
            Some(c) => Ok(Some(rect_region(c))),
            None => Err("capture region is outside the virtual desktop"@),
        },
    }
}

/// All rectangles the resolution may meet fit `i32` arithmetic.
pub open spec fn region_inputs_fit(
    req: RecordRequest,
    window: Option<(i32, i32, u32, u32)>,
    monitors: Seq<VirtualScreen>,
    display: Option<(i32, i32, u32, u32)>,
    screen: VirtualScreen,
) -> bool {
    &&& rects_fit(monitors)
    &&& edge_fits(screen.x, screen.width) && edge_fits(screen.y, screen.height)
    &&& (req.region matches Some(r) ==> edge_fits(r.x, r.width) && edge_fits(r.y, r.height))
    &&& (window matches Some(w) ==> edge_fits(w.0, w.2) && edge_fits(w.1, w.3))
    &&& (display matches Some(d) ==> edge_fits(d.0, d.2) && edge_fits(d.1, d.3) && distances_fit(
        monitors,
        d.0 + d.2 / 2,
        d.1 + d.3 / 2,
    ))
}

pub open spec fn window_rect_of(w: Option<&WindowInfo>) -> Option<(i32, i32, u32, u32)> {
    match w {
        Some(i) => Some((i.x, i.y, i.width, i.height)),
        None => None,
    }
}

pub open spec fn region_result(r: Result<Option<Region>, CoreError>) -> Result<Option<Region>, Seq<char>> {
    match r {
        Ok(v) => Ok(v),
        Err(CoreError::InvalidState(m)) => Err(m@),
        Err(_) => Err(seq![]),
    }
}

/// Where a display the capture backend reports at `d` lies on the monitors.
fn place_display(monitors: &[VirtualScreen], screen: &VirtualScreen, d: (i32, i32, u32, u32)) -> (r: Region)
    requires
        rects_fit(monitors@),
        edge_fits(screen.x, screen.width),
        edge_fits(screen.y, screen.height),
        edge_fits(d.0, d.2),
        edge_fits(d.1, d.3),
        distances_fit(monitors@, d.0 + d.2 / 2, d.1 + d.3 / 2),
    ensures
        r == rect_region(normalized_rect(monitors@, *screen, d.0, d.1, d.2, d.3)),
        edge_fits(r.x, r.width),
        edge_fits(r.y, r.height),
{
    proof {
        lemma_normalized_fits(monitors@, *screen, d.0, d.1, d.2, d.3);
    }
    let (x, y, w, h) = normalize_display_rect_among(monitors, screen, d.0, d.1, d.2, d.3);
    Region { x, y, width: w, height: h }
}

/// The physical screen region a recording captures, from the request, the
/// window it names (if found), the monitors, and the rectangle the capture
/// backend reports for the display it names (if it knows it).
pub fn resolve_capture_region(
    req: &RecordRequest,
    window: Option<&WindowInfo>,
    monitors: &[VirtualScreen],
    display: Option<(i32, i32, u32, u32)>,
    screen: &VirtualScreen,
) -> (r: Result<Option<Region>, CoreError>)
    requires
        region_inputs_fit(*req, window_rect_of(window), monitors@, display, *screen),
    ensures
        region_result(r) == resolved_region(*req, window_rect_of(window), monitors@, display, *screen),
        r is Err ==> r matches Err(CoreError::InvalidState(_)),
{
    let mut region: Option<Region> = req.region;
    if req.source == VideoSourceKind::Window && req.window_id.is_some() {
        if let Some(w) = window {
            region = Some(Region { x: w.x, y: w.y, width: w.width, height: w.height });
        }
    }
    if req.source == VideoSourceKind::Display {
        let id: u32 = match req.display_id {
            Some(d) => d,
            None => 0,
        };
        if (id as usize) < monitors.len() {
            let m = monitors[id as usize];
            region = Some(Region { x: m.x, y: m.y, width: m.width, height: m.height });
        } else if let Some(d) = display {
            region = Some(place_display(monitors, screen, d));
        }
    }
    proof {
        assert(region == chosen_region(*req, window_rect_of(window), monitors@, display, *screen));
    }
    match region {
        None => Ok(None),
        Some(rg) => {
            proof {
                let m = chosen_region(*req, window_rect_of(window), monitors@, display, *screen);
                if req.source == VideoSourceKind::Display {
                    let id: int = if req.display_id is Some { req.display_id->0 as int } else { 0 };
                    if id < monitors@.len() {
                        assert(edge_fits(monitors@[id].x, monitors@[id].width));
                    }
                }
                assert(edge_fits(rg.x, rg.width) && edge_fits(rg.y, rg.height)) by {
                    if req.source == VideoSourceKind::Display {
                        let id: int = if req.display_id is Some { req.display_id->0 as int } else { 0 };
                        if id < monitors@.len() {
                            assert(edge_fits(monitors@[id].x, monitors@[id].width));
                            assert(edge_fits(monitors@[id].y, monitors@[id].height));
                        }
                    }
                }
            }
            match screen.clamp_rect(rg.x, rg.y, rg.width, rg.height) {
                Some((x, y, w, h)) => Ok(Some(Region { x, y, width: w, height: h })),
                None => Err(invalid_state("capture region is outside the virtual desktop")),
            }
        },
    }
}

/// The region a recording captures on this machine.
pub fn resolve_capture_region_here(req: &RecordRequest, display: Option<(i32, i32, u32, u32)>) -> (r: Result<Option<Region>, CoreError>)
    requires
        region_inputs_fit(*req, None, list_monitor_rects_spec(), display, VirtualScreen { x: 0, y: 0, width: 1920, height: 1080 }),
    ensures
        region_result(r) == resolved_region(
            *req,
            None,
            list_monitor_rects_spec(),
            display,
            VirtualScreen { x: 0, y: 0, width: 1920, height: 1080 },
        ),
{
    let monitors = list_monitor_rects();
    let screen = virtual_screen();
    let found = match req.window_id {
        Some(id) => match window_by_id(id) {
            Ok(w) => w,
            Err(_) => None,
        },
        None => None,
    };
    proof {
        assert(found is None);
    }
    resolve_capture_region(req, None, monitors.as_slice(), display, &screen)
}

/// What a recording captures: the display it names (0 unless named), the
/// window it names (else its region, else the display), or its region
/// (else the display).
pub open spec fn target_for(req: RecordRequest) -> CaptureTarget {
    let display = CaptureTarget::Display { id: if req.display_id is Some { req.display_id->0 } else { 0 } };
    match req.source {
        VideoSourceKind::Display => display,
        VideoSourceKind::Window => if req.window_id is Some {
            CaptureTarget::Window { id: req.window_id->0 }
        } else if req.region is Some {
            let r = req.region->0;
            CaptureTarget::Region { x: r.x, y: r.y, width: r.width, height: r.height }
        } else {
            display
        },
        VideoSourceKind::Region => if req.region is Some {
            let r = req.region->0;
            CaptureTarget::Region { x: r.x, y: r.y, width: r.width, height: r.height }
        } else {
            display
        },
    }
}

pub fn capture_target_for(req: &RecordRequest) -> (r: CaptureTarget)
    ensures
        r == target_for(*req),
{
    let display = CaptureTarget::Display {
        id: match req.display_id {
            Some(d) => d,
            None => 0,
        },
    };
    match req.source {
        VideoSourceKind::Display => display,
        VideoSourceKind::Window => {
            if let Some(id) = req.window_id {
                CaptureTarget::Window { id }
            } else if let Some(r) = req.region {
                CaptureTarget::Region { x: r.x, y: r.y, width: r.width, height: r.height }
            } else {
                display
            }
        },
        VideoSourceKind::Region => {
            if let Some(r) = req.region {
                CaptureTarget::Region { x: r.x, y: r.y, width: r.width, height: r.height }
            } else {
                display
            }
        },
    }
}

/// The webcam a recording opens: its device id, else its label, trimmed;
/// none when the one given is blank.
pub open spec fn webcam_device_of(device_id: Option<Seq<char>>, device_label: Option<Seq<char>>) -> Option<Seq<char>> {
    let chosen = if device_id is Some { device_id } else { device_label };
    match chosen {
        Some(d) => if trim(d).len() > 0 { Some(trim(d)) } else { None },
        None => None,
    }
}

pub fn webcam_device(device_id: Option<&str>, device_label: Option<&str>) -> (r: Option<String>)
    ensures
        match r {
            Some(s) => webcam_device_of(crate::audio::opt_str_view(device_id), crate::audio::opt_str_view(device_label)) == Some(s@),
            None => webcam_device_of(crate::audio::opt_str_view(device_id), crate::audio::opt_str_view(device_label)) is None,
        },
{
    let chosen = if device_id.is_some() { device_id } else { device_label };
    match chosen {
        Some(d) => {
            let cs = chars_of(d);
            let t = trimmed_range(cs.as_slice(), 0, cs.len());
            proof {
                assert(cs@.subrange(0, cs@.len() as int) == cs@);
            }
            if t.len() > 0 {
                Some(string_from(t.as_slice()))
            } else {
                None
            }
        },
        None => None,
    }
}

/// Native audio is captured for every format but GIF.
pub fn records_audio(format: OutputFormat) -> (r: bool)
    ensures
        r == (format != OutputFormat::Gif),
{
    format != OutputFormat::Gif
}

/// The screen is captured for every format but audio only.
pub fn captures_screen(format: OutputFormat) -> (r: bool)
    ensures
        r == (format != OutputFormat::AudioOnly),
{
    format != OutputFormat::AudioOnly
}

/// Whether a recording's file is an MP4 by its extension (the text after
/// the file name's last dot, none when it has no valid one), in any case;
/// such files are rewritten with `faststart` when recording stops.
pub fn req_is_mp4(extension: Option<&str>) -> (r: bool)
    ensures
        r == (extension matches Some(e) && crate::text::eq_ignore_ascii_case(e@, "mp4"@)),
{
    match extension {
        Some(e) => {
            let ec = crate::text::chars_of(e);
            let m = crate::text::chars_of("mp4");
            crate::text::same_ignoring_ascii_case(ec.as_slice(), m.as_slice())
        },
        None => false,
    }
}

} // verus!
